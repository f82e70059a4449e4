use vstd::prelude::*;

use crate::clock::{local_date_days_ago, now_str};
use crate::json::{json_pair_list, json_pairs, json_string_list, json_strings, pairs_from_json, stored_pairs, stored_strings, strings_from_json};
use crate::sqlite::{change, changes, lemma_changes_append, lemma_changes_of_changes, one_query, params, row_fits, rows_view, ColumnKind, Db, Param, Sent, SqlArg, SqlValue};

verus! {

/// Identifier of the threshold-rotation routing strategy.
pub const STRATEGY_THRESHOLD_ROTATION: &'static str = "threshold_rotation";

/// Identifier of the model-match routing strategy.
pub const STRATEGY_MODEL_MATCH: &'static str = "model_match";

/// An upstream coding plan.
pub struct CodingPlan {
    pub id: i64,
    pub name: String,
    pub base_url: String,
    pub auth_token: String,
    pub remark: String,
    pub enabled: bool,
    /// Models this plan is configured to serve (routing key of the model-match strategy).
    pub models: Vec<String>,
    pub created_at: String,
}

impl CodingPlan {
    /// Whether `model` is one of the plan's configured models.
    pub open spec fn supports(self, model: Seq<char>) -> bool {
        exists|k: int| 0 <= k < self.models@.len() && (#[trigger] self.models@[k])@ == model
    }

    /// Field-by-field equality (the model list compared by content).
    pub open spec fn same_as(self, other: CodingPlan) -> bool {
        &&& self.id == other.id
        &&& self.name == other.name
        &&& self.base_url == other.base_url
        &&& self.auth_token == other.auth_token
        &&& self.remark == other.remark
        &&& self.enabled == other.enabled
        &&& self.models@ == other.models@
        &&& self.created_at == other.created_at
    }

    /// A copy of the plan.
    pub fn duplicate(&self) -> (r: CodingPlan)
        ensures
            r.same_as(*self),
    {
        let models = self.models.clone();
        proof {
            assert forall|i: int| 0 <= i < models@.len() implies models@[i] == self.models@[i] by {
                assert(cloned::<String>(self.models[i], models[i]));
            }
            assert(models@ =~= self.models@);
        }
        CodingPlan {
            id: self.id,
            name: self.name.clone(),
            base_url: self.base_url.clone(),
            auth_token: self.auth_token.clone(),
            remark: self.remark.clone(),
            enabled: self.enabled,
            models,
            created_at: self.created_at.clone(),
        }
    }
}

/// A plan aggregator: one public endpoint in front of several bound plans.
pub struct Aggregator {
    pub id: i64,
    pub name: String,
    pub port: i64,
    pub auth_token: String,
    pub strategy: String,
    pub token_threshold: i64,
    /// Manually chosen (threshold rotation) or sticky (model match) current plan.
    pub current_plan_id: Option<i64>,
    pub created_at: String,
}

/// A binding of a plan to an aggregator, with the usage accumulated on it.
pub struct BindingWithPlan {
    pub binding_id: i64,
    pub position: i64,
    pub used_tokens: i64,
    pub plan: CodingPlan,
}


/// A message (one forwarded or refused request) as stored.
pub struct MessageRow {
    pub id: i64,
    pub aggregator_id: i64,
    pub plan_id: Option<i64>,
    pub method: String,
    pub path: String,
    pub status: i64,
    pub request_body: String,
    pub response_body: String,
    pub model: String,
    pub prompt_tokens: i64,
    pub completion_tokens: i64,
    pub cache_read_tokens: i64,
    pub cache_creation_tokens: i64,
    pub total_tokens: i64,
    pub duration_ms: i64,
    pub created_at: String,
    /// Name of the aggregator, for display.
    pub aggregator_name: Option<String>,
    /// Name of the plan, for display.
    pub plan_name: Option<String>,
}

/// A message to store (its time is set when stored).
pub struct NewMessage {
    pub aggregator_id: i64,
    pub plan_id: Option<i64>,
    pub method: String,
    pub path: String,
    pub status: i64,
    pub request_body: String,
    pub response_body: String,
    pub model: String,
    pub prompt_tokens: i64,
    pub completion_tokens: i64,
    pub cache_read_tokens: i64,
    pub cache_creation_tokens: i64,
    pub total_tokens: i64,
    pub duration_ms: i64,
}

/// A message in listings: everything but the two (large) bodies.
pub struct MessageSummary {
    pub id: i64,
    pub aggregator_id: i64,
    pub plan_id: Option<i64>,
    pub method: String,
    pub path: String,
    pub status: i64,
    pub model: String,
    pub prompt_tokens: i64,
    pub completion_tokens: i64,
    pub cache_read_tokens: i64,
    pub cache_creation_tokens: i64,
    pub total_tokens: i64,
    pub duration_ms: i64,
    pub created_at: String,
    pub aggregator_name: Option<String>,
    pub plan_name: Option<String>,
}

/// Token totals and request count over a set of messages.
pub struct UsageStats {
    pub total_tokens: i64,
    pub prompt_tokens: i64,
    pub completion_tokens: i64,
    pub cache_read_tokens: i64,
    pub cache_creation_tokens: i64,
    pub requests: i64,
}

impl UsageStats {
    /// No usage (no tokens, no requests).
    pub open spec fn none() -> UsageStats {
        UsageStats {
            total_tokens: 0,
            prompt_tokens: 0,
            completion_tokens: 0,
            cache_read_tokens: 0,
            cache_creation_tokens: 0,
            requests: 0,
        }
    }

    /// No usage.
    pub fn zero() -> (r: UsageStats)
        ensures
            r == UsageStats::none(),
    {
        UsageStats {
            total_tokens: 0,
            prompt_tokens: 0,
            completion_tokens: 0,
            cache_read_tokens: 0,
            cache_creation_tokens: 0,
            requests: 0,
        }
    }
}

/// The trip meter: usage since it was last reset (all history when never reset); when paused,
/// frozen at the pause.
pub struct TripStats {
    pub started_at: Option<String>,
    pub paused: bool,
    pub stats: UsageStats,
}

/// One group of a grouped statistic (by day, hour or model; `key` names the group).
pub struct StatsBucket {
    pub key: String,
    pub total_tokens: i64,
    pub prompt_tokens: i64,
    pub completion_tokens: i64,
    pub cache_read_tokens: i64,
    pub cache_creation_tokens: i64,
    pub requests: i64,
}

/// Whether `s` names a routing strategy this version implements.
pub open spec fn known_strategy(s: Seq<char>) -> bool {
    s == STRATEGY_THRESHOLD_ROTATION@ || s == STRATEGY_MODEL_MATCH@
}

/// Whether `s` names a routing strategy this version implements.
pub fn is_known_strategy(s: &str) -> (r: bool)
    ensures
        r == known_strategy(s@),
{
    let s = s.to_owned();
    s == STRATEGY_THRESHOLD_ROTATION.to_owned() || s == STRATEGY_MODEL_MATCH.to_owned()
}

// ---------------------------------------------------------------------------
// Reading column values
// ---------------------------------------------------------------------------

/// The integer of an integer value (0 otherwise).
pub open spec fn int_of(v: SqlValue) -> i64 {
    match v {
        SqlValue::Int(x) => x,
        _ => 0,
    }
}

/// The integer of an integer value, `None` for NULL.
pub open spec fn opt_int_of(v: SqlValue) -> Option<i64> {
    match v {
        SqlValue::Int(x) => Some(x),
        _ => None,
    }
}

/// The text of a text value (empty otherwise).
pub open spec fn text_of(v: SqlValue) -> Seq<char> {
    match v {
        SqlValue::Text(s) => s@,
        _ => Seq::empty(),
    }
}

/// The text of a text value, `None` for NULL.
pub open spec fn opt_text_of(v: SqlValue) -> Option<Seq<char>> {
    match v {
        SqlValue::Text(s) => Some(s@),
        _ => None,
    }
}

/// `o` viewed as optional text.
pub open spec fn opt_view(o: Option<String>) -> Option<Seq<char>> {
    match o {
        Some(s) => Some(s@),
        None => None,
    }
}

fn int_at(row: &Vec<SqlValue>, i: usize) -> (r: i64)
    requires
        i < row@.len(),
    ensures
        r == int_of(row@[i as int]),
{
    match &row[i] {
        SqlValue::Int(x) => *x,
        _ => 0,
    }
}

fn opt_int_at(row: &Vec<SqlValue>, i: usize) -> (r: Option<i64>)
    requires
        i < row@.len(),
    ensures
        r == opt_int_of(row@[i as int]),
{
    match &row[i] {
        SqlValue::Int(x) => Some(*x),
        _ => None,
    }
}

fn text_at(row: &Vec<SqlValue>, i: usize) -> (r: String)
    requires
        i < row@.len(),
    ensures
        r@ == text_of(row@[i as int]),
{
    match &row[i] {
        SqlValue::Text(s) => s.clone(),
        _ => String::new(),
    }
}

fn opt_text_at(row: &Vec<SqlValue>, i: usize) -> (r: Option<String>)
    requires
        i < row@.len(),
    ensures
        opt_view(r) == opt_text_of(row@[i as int]),
{
    match &row[i] {
        SqlValue::Text(s) => Some(s.clone()),
        _ => None,
    }
}

// ---------------------------------------------------------------------------
// Row shapes
// ---------------------------------------------------------------------------

/// `n` integer columns.
pub open spec fn ints(n: nat) -> Seq<ColumnKind> {
    Seq::new(n, |i: int| ColumnKind::Int)
}

/// The columns of a plan.
pub open spec fn plan_kind_seq() -> Seq<ColumnKind> {
    seq![
        ColumnKind::Int,
        ColumnKind::Text,
        ColumnKind::Text,
        ColumnKind::Text,
        ColumnKind::Text,
        ColumnKind::Int,
        ColumnKind::Text,
        ColumnKind::Text,
    ]
}

/// The columns of an aggregator.
pub open spec fn aggregator_kind_seq() -> Seq<ColumnKind> {
    seq![
        ColumnKind::Int,
        ColumnKind::Text,
        ColumnKind::Int,
        ColumnKind::Text,
        ColumnKind::Text,
        ColumnKind::Int,
        ColumnKind::OptInt,
        ColumnKind::Text,
    ]
}

/// The columns of a binding with its plan.
pub open spec fn binding_kind_seq() -> Seq<ColumnKind> {
    ints(3) + plan_kind_seq()
}

/// The columns of a usage total.
pub open spec fn usage_kind_seq() -> Seq<ColumnKind> {
    ints(6)
}

/// The columns of a group of a grouped statistic.
pub open spec fn bucket_kind_seq() -> Seq<ColumnKind> {
    seq![ColumnKind::Text] + ints(6)
}

/// The columns of a stored message with the names of its aggregator and plan.
pub open spec fn message_kind_seq() -> Seq<ColumnKind> {
    ints(2) + seq![
        ColumnKind::OptInt,
        ColumnKind::Text,
        ColumnKind::Text,
        ColumnKind::Int,
        ColumnKind::Text,
        ColumnKind::Text,
        ColumnKind::Text,
    ] + ints(6) + seq![ColumnKind::Text, ColumnKind::OptText, ColumnKind::OptText]
}

/// The columns of a message summary.
pub open spec fn summary_kind_seq() -> Seq<ColumnKind> {
    ints(2) + seq![ColumnKind::OptInt, ColumnKind::Text, ColumnKind::Text, ColumnKind::Int, ColumnKind::Text]
        + ints(6) + seq![ColumnKind::Text, ColumnKind::OptText, ColumnKind::OptText]
}

/// `p` is what reading a stored plan gives: the conversion of some row of plan columns.
pub open spec fn stored_plan(p: CodingPlan) -> bool {
    exists|row: Seq<SqlValue>| row_fits(row, plan_kind_seq()) && #[trigger] plan_row(row, 0, p)
}

/// `a` is what reading a stored aggregator gives: the conversion of some row of its columns.
pub open spec fn stored_aggregator(a: Aggregator) -> bool {
    exists|row: Seq<SqlValue>| row_fits(row, aggregator_kind_seq()) && #[trigger] aggregator_row(row, a)
}

/// `b` is what reading a stored binding gives: the conversion of some row of its columns.
pub open spec fn stored_binding(b: BindingWithPlan) -> bool {
    exists|row: Seq<SqlValue>| row_fits(row, binding_kind_seq()) && #[trigger] binding_row(row, b)
}

/// `u` is what reading a usage total gives: the conversion of some row of six integers.
pub open spec fn stored_usage(u: UsageStats) -> bool {
    exists|row: Seq<SqlValue>| row_fits(row, usage_kind_seq()) && #[trigger] usage_row(row, 0, u)
}

/// `b` is what reading a group of a grouped statistic gives.
pub open spec fn stored_bucket(b: StatsBucket) -> bool {
    exists|row: Seq<SqlValue>| row_fits(row, bucket_kind_seq()) && #[trigger] bucket_row(row, b)
}

/// `m` is what reading a stored message gives.
pub open spec fn stored_message(m: MessageRow) -> bool {
    exists|row: Seq<SqlValue>| row_fits(row, message_kind_seq()) && #[trigger] message_row(row, m)
}

/// `m` is what reading a stored message summary gives.
pub open spec fn stored_summary(m: MessageSummary) -> bool {
    exists|row: Seq<SqlValue>| row_fits(row, summary_kind_seq()) && #[trigger] summary_row(row, m)
}

/// No usage is what reading an empty total gives.
pub proof fn lemma_no_usage_stored()
    ensures
        stored_usage(UsageStats::none()),
{
    let row = Seq::new(6, |i: int| SqlValue::Int(0));
    assert(row_fits(row, usage_kind_seq()));
    assert(usage_row(row, 0, UsageStats::none()));
}

/// `p` is the plan stored in the columns of `row` starting at `o`
/// (id, name, base_url, auth_token, remark, enabled, created_at, models).
pub open spec fn plan_row(row: Seq<SqlValue>, o: int, p: CodingPlan) -> bool {
    &&& p.id == int_of(row[o])
    &&& p.name@ == text_of(row[o + 1])
    &&& p.base_url@ == text_of(row[o + 2])
    &&& p.auth_token@ == text_of(row[o + 3])
    &&& p.remark@ == text_of(row[o + 4])
    &&& p.enabled == (int_of(row[o + 5]) != 0)
    &&& p.created_at@ == text_of(row[o + 6])
    &&& p.models@ == stored_strings(text_of(row[o + 7]))
}

fn plan_kinds(kinds: &mut Vec<ColumnKind>)
    ensures
        final(kinds)@ == old(kinds)@ + seq![
            ColumnKind::Int,
            ColumnKind::Text,
            ColumnKind::Text,
            ColumnKind::Text,
            ColumnKind::Text,
            ColumnKind::Int,
            ColumnKind::Text,
            ColumnKind::Text,
        ],
{
    let ghost before = kinds@;
    kinds.push(ColumnKind::Int);
    kinds.push(ColumnKind::Text);
    kinds.push(ColumnKind::Text);
    kinds.push(ColumnKind::Text);
    kinds.push(ColumnKind::Text);
    kinds.push(ColumnKind::Int);
    kinds.push(ColumnKind::Text);
    kinds.push(ColumnKind::Text);
    assert(kinds@ =~= before + seq![
        ColumnKind::Int,
        ColumnKind::Text,
        ColumnKind::Text,
        ColumnKind::Text,
        ColumnKind::Text,
        ColumnKind::Int,
        ColumnKind::Text,
        ColumnKind::Text,
    ]);
}

/// The plan stored in the columns of `row` starting at `o`.
pub fn plan_from_row(row: &Vec<SqlValue>, o: usize) -> (p: CodingPlan)
    requires
        o + 8 <= row.len(),
    ensures
        plan_row(row@, o as int, p),
{
    let models_text = text_at(row, o + 7);
    CodingPlan {
        id: int_at(row, o),
        name: text_at(row, o + 1),
        base_url: text_at(row, o + 2),
        auth_token: text_at(row, o + 3),
        remark: text_at(row, o + 4),
        enabled: int_at(row, o + 5) != 0,
        created_at: text_at(row, o + 6),
        models: strings_from_json(models_text.as_str()),
    }
}

/// `a` is the aggregator stored in `row`
/// (id, name, port, auth_token, strategy, token_threshold, current_plan_id, created_at).
pub open spec fn aggregator_row(row: Seq<SqlValue>, a: Aggregator) -> bool {
    &&& a.id == int_of(row[0])
    &&& a.name@ == text_of(row[1])
    &&& a.port == int_of(row[2])
    &&& a.auth_token@ == text_of(row[3])
    &&& a.strategy@ == text_of(row[4])
    &&& a.token_threshold == int_of(row[5])
    &&& a.current_plan_id == opt_int_of(row[6])
    &&& a.created_at@ == text_of(row[7])
}

fn aggregator_kinds() -> (k: Vec<ColumnKind>)
    ensures
        k@ == aggregator_kind_seq(),
{
    let mut k = Vec::new();
    k.push(ColumnKind::Int);
    k.push(ColumnKind::Text);
    k.push(ColumnKind::Int);
    k.push(ColumnKind::Text);
    k.push(ColumnKind::Text);
    k.push(ColumnKind::Int);
    k.push(ColumnKind::OptInt);
    k.push(ColumnKind::Text);
    assert(k@ =~= aggregator_kind_seq());
    k
}

/// The aggregator stored in `row`.
pub fn aggregator_from_row(row: &Vec<SqlValue>) -> (a: Aggregator)
    requires
        8 <= row@.len(),
    ensures
        aggregator_row(row@, a),
{
    Aggregator {
        id: int_at(row, 0),
        name: text_at(row, 1),
        port: int_at(row, 2),
        auth_token: text_at(row, 3),
        strategy: text_at(row, 4),
        token_threshold: int_at(row, 5),
        current_plan_id: opt_int_at(row, 6),
        created_at: text_at(row, 7),
    }
}

/// `s` is the usage stored in the columns of `row` starting at `o`
/// (total, prompt, completion, cache read, cache creation, requests).
pub open spec fn usage_row(row: Seq<SqlValue>, o: int, s: UsageStats) -> bool {
    &&& s.total_tokens == int_of(row[o])
    &&& s.prompt_tokens == int_of(row[o + 1])
    &&& s.completion_tokens == int_of(row[o + 2])
    &&& s.cache_read_tokens == int_of(row[o + 3])
    &&& s.cache_creation_tokens == int_of(row[o + 4])
    &&& s.requests == int_of(row[o + 5])
}

fn int_kinds(kinds: &mut Vec<ColumnKind>, n: usize)
    ensures
        final(kinds)@ == old(kinds)@ + ints(n as nat),
{
    let mut i: usize = 0;
    let ghost start = kinds@;
    while i < n
        invariant
            0 <= i <= n,
            kinds@ == start + ints(i as nat),
        decreases n - i,
    {
        kinds.push(ColumnKind::Int);
        assert(kinds@ =~= start + ints((i + 1) as nat));
        i = i + 1;
    }
}

/// The usage stored in the columns of `row` starting at `o`.
pub fn usage_from_row(row: &Vec<SqlValue>, o: usize) -> (s: UsageStats)
    requires
        o + 6 <= row.len(),
    ensures
        usage_row(row@, o as int, s),
{
    UsageStats {
        total_tokens: int_at(row, o),
        prompt_tokens: int_at(row, o + 1),
        completion_tokens: int_at(row, o + 2),
        cache_read_tokens: int_at(row, o + 3),
        cache_creation_tokens: int_at(row, o + 4),
        requests: int_at(row, o + 5),
    }
}

// ---------------------------------------------------------------------------
// Schema
// ---------------------------------------------------------------------------

/// Tables and indexes, created when missing.
pub const SCHEMA: &'static str = "
        PRAGMA journal_mode=WAL;
        PRAGMA foreign_keys=ON;

        CREATE TABLE IF NOT EXISTS coding_plans (
            id          INTEGER PRIMARY KEY AUTOINCREMENT,
            name        TEXT NOT NULL,
            base_url    TEXT NOT NULL,
            auth_token  TEXT NOT NULL,
            remark      TEXT NOT NULL DEFAULT '',
            enabled     INTEGER NOT NULL DEFAULT 1,
            created_at  TEXT NOT NULL,
            models      TEXT NOT NULL DEFAULT '[]'
        );

        CREATE TABLE IF NOT EXISTS aggregators (
            id              INTEGER PRIMARY KEY AUTOINCREMENT,
            name            TEXT NOT NULL,
            port            INTEGER NOT NULL,
            auth_token      TEXT NOT NULL,
            strategy        TEXT NOT NULL DEFAULT 'threshold_rotation',
            token_threshold INTEGER NOT NULL DEFAULT 1000000,
            created_at      TEXT NOT NULL,
            current_plan_id INTEGER
        );

        CREATE TABLE IF NOT EXISTS aggregator_plans (
            id            INTEGER PRIMARY KEY AUTOINCREMENT,
            aggregator_id INTEGER NOT NULL,
            plan_id       INTEGER NOT NULL,
            position      INTEGER NOT NULL DEFAULT 0,
            used_tokens   INTEGER NOT NULL DEFAULT 0,
            UNIQUE(aggregator_id, plan_id)
        );

        CREATE TABLE IF NOT EXISTS messages (
            id                INTEGER PRIMARY KEY AUTOINCREMENT,
            aggregator_id     INTEGER NOT NULL,
            plan_id           INTEGER,
            method            TEXT NOT NULL DEFAULT '',
            path              TEXT NOT NULL DEFAULT '',
            status            INTEGER NOT NULL DEFAULT 0,
            request_body      TEXT NOT NULL DEFAULT '',
            response_body     TEXT NOT NULL DEFAULT '',
            model             TEXT NOT NULL DEFAULT '',
            prompt_tokens     INTEGER NOT NULL DEFAULT 0,
            completion_tokens INTEGER NOT NULL DEFAULT 0,
            cache_read_tokens     INTEGER NOT NULL DEFAULT 0,
            cache_creation_tokens INTEGER NOT NULL DEFAULT 0,
            total_tokens      INTEGER NOT NULL DEFAULT 0,
            duration_ms       INTEGER NOT NULL DEFAULT 0,
            created_at        TEXT NOT NULL
        );

        CREATE INDEX IF NOT EXISTS idx_messages_agg   ON messages(aggregator_id, id DESC);
        CREATE INDEX IF NOT EXISTS idx_messages_plan  ON messages(plan_id);
        CREATE INDEX IF NOT EXISTS idx_messages_date  ON messages(substr(created_at,1,10));
        CREATE INDEX IF NOT EXISTS idx_messages_created ON messages(created_at);
        CREATE INDEX IF NOT EXISTS idx_agg_plans_agg  ON aggregator_plans(aggregator_id);

        CREATE TABLE IF NOT EXISTS settings (
            key   TEXT PRIMARY KEY,
            value TEXT NOT NULL
        );
        ";

/// Opens (creating when missing) the database at `path` (`:memory:` for a private in-memory
/// one), creates the schema and upgrades older databases.
pub fn init_db(path: &str) -> (r: Result<Db, rusqlite::Error>)
    ensures
        r matches Ok(db) ==> migrated(seq![change(SCHEMA@, Seq::empty())], db.history()),
{
    let mut db = Db::open(path)?;
    db.run_batch(SCHEMA)?;
    assert(db.history() =~= seq![change(SCHEMA@, Seq::empty())]);
    migrate(&mut db)?;
    Ok(db)
}

/// `existing` has a column named `name`.
pub open spec fn has_column(existing: Seq<Seq<char>>, name: Seq<char>) -> bool {
    exists|k: int| 0 <= k < existing.len() && #[trigger] existing[k] == name
}

/// The statements adding the `wanted` columns (name, statement) that `existing` lacks, in order.
pub open spec fn missing_ddl(existing: Seq<Seq<char>>, wanted: Seq<(Seq<char>, Seq<char>)>) -> Seq<Seq<char>>
    decreases wanted.len(),
{
    if wanted.len() == 0 {
        Seq::empty()
    } else {
        let rest = missing_ddl(existing, wanted.drop_last());
        if has_column(existing, wanted.last().0) {
            rest
        } else {
            rest.push(wanted.last().1)
        }
    }
}

/// A table whose columns already include every wanted one needs no statement: once a
/// migration added the missing columns, migrating again sends no `ALTER` for that table.
pub proof fn lemma_complete_table_needs_nothing(existing: Seq<Seq<char>>, wanted: Seq<(Seq<char>, Seq<char>)>)
    requires
        forall|i: int| 0 <= i < wanted.len() ==> has_column(existing, #[trigger] wanted[i].0),
    ensures
        missing_ddl(existing, wanted) == Seq::<Seq<char>>::empty(),
    decreases wanted.len(),
{
    if wanted.len() > 0 {
        assert(has_column(existing, wanted[wanted.len() - 1].0));
        lemma_complete_table_needs_nothing(existing, wanted.drop_last());
    }
}

/// Migrating a table whose column read lists every wanted column sends nothing after that
/// read.
pub proof fn lemma_complete_table_unchanged(before: Seq<Sent>, after: Seq<Sent>, table: Seq<char>, wanted: Seq<(Seq<char>, Seq<char>)>)
    requires
        table_migrated(before, after, table, wanted),
        forall|i: int|
            0 <= i < wanted.len() ==> has_column(column_names(after[before.len() as int].rows), #[trigger] wanted[i].0),
    ensures
        after.skip(before.len() as int + 1) == Seq::<Sent>::empty(),
{
    let names = column_names(after[before.len() as int].rows);
    lemma_complete_table_needs_nothing(names, wanted);
    assert(ddl_changes(Seq::<Seq<char>>::empty()) =~= Seq::<Sent>::empty());
}

/// The (name, statement) pairs of `wanted` as texts.
pub open spec fn column_texts(wanted: Seq<(String, String)>) -> Seq<(Seq<char>, Seq<char>)> {
    wanted.map_values(|c: (String, String)| (c.0@, c.1@))
}

/// Whether `existing` has a column named `name`.
pub fn column_present(existing: &Vec<String>, name: &String) -> (r: bool)
    ensures
        r == has_column(texts(existing@), name@),
{
    let mut k: usize = 0;
    while k < existing.len()
        invariant
            0 <= k <= existing@.len(),
            forall|j: int| 0 <= j < k ==> (#[trigger] existing@[j])@ != name@,
        decreases existing.len() - k,
    {
        if existing[k] == *name {
            assert(texts(existing@)[k as int] == name@);
            return true;
        }
        k = k + 1;
    }
    assert forall|j: int| 0 <= j < texts(existing@).len() implies #[trigger] texts(existing@)[j] != name@ by {
        assert(texts(existing@)[j] == existing@[j]@);
    }
    false
}

/// The statements that add the wanted columns a table lacks.
pub fn migration_statements(existing: &Vec<String>, wanted: &Vec<(String, String)>) -> (r: Vec<
    String,
>)
    ensures
        texts(r@) == missing_ddl(texts(existing@), column_texts(wanted@)),
{
    let mut out: Vec<String> = Vec::new();
    let mut i: usize = 0;
    while i < wanted.len()
        invariant
            0 <= i <= wanted@.len(),
            texts(out@) == missing_ddl(texts(existing@), column_texts(wanted@).take(i as int)),
        decreases wanted.len() - i,
    {
        proof {
            assert(column_texts(wanted@).take(i + 1).drop_last() =~= column_texts(wanted@).take(i as int));
            assert(column_texts(wanted@).take(i + 1).last() == (wanted@[i as int].0@, wanted@[i as int].1@));
        }
        if !column_present(existing, &wanted[i].0) {
            let ghost before = out@;
            out.push(wanted[i].1.clone());
            assert(texts(out@) =~= texts(before).push(wanted@[i as int].1@));
        }
        i = i + 1;
    }
    assert(column_texts(wanted@).take(wanted@.len() as int) =~= column_texts(wanted@));
    out
}

/// Reads the column names of a table.
pub const TABLE_COLUMNS_SQL: &'static str = "SELECT name FROM pragma_table_info(?1)";

/// The column names that a read of a table's columns gave.
pub open spec fn column_names(rows: Seq<Seq<SqlValue>>) -> Seq<Seq<char>> {
    rows.map_values(|r: Seq<SqlValue>| text_of(r[0]))
}

/// The column names of `table` (empty when it does not exist).
fn table_columns(db: &mut Db, table: &str) -> (r: Result<Vec<String>, rusqlite::Error>)
    ensures
        changes(final(db).history()) == changes(old(db).history()),
        one_query(old(db).history(), final(db).history(), TABLE_COLUMNS_SQL@, seq![Param::Text(table@)]),
        r matches Ok(names) ==> texts(names@) == column_names(final(db).history().last().rows),
{
    let mut kinds = Vec::new();
    kinds.push(ColumnKind::Text);
    let mut args = Vec::new();
    args.push(SqlArg::Text(table.to_owned()));
    assert(params(args@) =~= seq![Param::Text(table@)]);
    let rows = db.query(TABLE_COLUMNS_SQL, args.as_slice(), kinds.as_slice())?;
    let mut names: Vec<String> = Vec::new();
    let mut i: usize = 0;
    while i < rows.len()
        invariant
            0 <= i <= rows@.len(),
            forall|j: int| 0 <= j < rows@.len() ==> row_fits(#[trigger] rows@[j]@, kinds@),
            kinds@.len() == 1,
            names@.len() == i,
            forall|j: int| 0 <= j < i ==> (#[trigger] names@[j])@ == text_of(rows@[j]@[0]),
        decreases rows.len() - i,
    {
        assert(row_fits(rows@[i as int]@, kinds@));
        names.push(text_at(&rows[i], 0));
        i = i + 1;
    }
    assert(texts(names@) =~= column_names(rows_view(rows@)));
    Ok(names)
}

fn column(name: &str, ddl: &str) -> (r: (String, String))
    ensures
        r.0@ == name@ && r.1@ == ddl@,
{
    (name.to_owned(), ddl.to_owned())
}

/// Statements without parameters, as changes.
pub open spec fn ddl_changes(stmts: Seq<Seq<char>>) -> Seq<Sent> {
    stmts.map_values(|t: Seq<char>| change(t, Seq::empty()))
}

/// `after` is `before` followed by the read of `table`'s columns and then, when the table
/// exists (it has columns), the statements adding the `wanted` columns it lacks.
pub open spec fn table_migrated(before: Seq<Sent>, after: Seq<Sent>, table: Seq<char>, wanted: Seq<(Seq<char>, Seq<char>)>) -> bool {
    let n = before.len() as int;
    let names = column_names(after[n].rows);
    &&& one_query(before, after.take(n + 1), TABLE_COLUMNS_SQL@, seq![Param::Text(table)])
    &&& after.skip(n + 1) == ddl_changes(if names.len() > 0 { missing_ddl(names, wanted) } else { Seq::empty() })
}

/// Brings one table up to date: adds the `wanted` columns it lacks (none when it does not
/// exist).
fn migrate_table(db: &mut Db, table: &str, wanted: &Vec<(String, String)>) -> (r: Result<(), rusqlite::Error>)
    ensures
        r is Ok ==> table_migrated(old(db).history(), final(db).history(), table@, column_texts(wanted@)),
{
    let ghost h0 = db.history();
    let existing = table_columns(db, table)?;
    let ghost h1 = db.history();
    if existing.len() > 0 {
        let stmts = migration_statements(&existing, wanted);
        let ghost all = ddl_changes(texts(stmts@));
        let mut i: usize = 0;
        while i < stmts.len()
            invariant
                0 <= i <= stmts@.len(),
                all == ddl_changes(texts(stmts@)),
                db.history() == h1 + all.take(i as int),
            decreases stmts.len() - i,
        {
            let args: Vec<SqlArg> = Vec::new();
            assert(params(args@) =~= Seq::<Param>::empty());
            db.run(stmts[i].as_str(), args.as_slice())?;
            assert(all[i as int] == change(stmts@[i as int]@, Seq::empty()));
            assert(all.take(i + 1) =~= all.take(i as int).push(all[i as int]));
            i = i + 1;
        }
        proof {
            assert(all.take(i as int) =~= all);
            assert(db.history().take(h0.len() as int + 1) =~= h1);
            assert(db.history()[h0.len() as int] == h1.last());
            assert(db.history().skip(h0.len() as int + 1) =~= all);
        }
    } else {
        proof {
            assert(db.history().take(h0.len() as int + 1) =~= h1);
            assert(db.history().skip(h0.len() as int + 1) =~= ddl_changes(Seq::empty()));
        }
    }
    Ok(())
}

/// The columns later versions added to the messages table.
pub open spec fn message_columns() -> Seq<(Seq<char>, Seq<char>)> {
    seq![
        ("model"@, "ALTER TABLE messages ADD COLUMN model TEXT NOT NULL DEFAULT ''"@),
        ("cache_read_tokens"@, "ALTER TABLE messages ADD COLUMN cache_read_tokens INTEGER NOT NULL DEFAULT 0"@),
        ("cache_creation_tokens"@, "ALTER TABLE messages ADD COLUMN cache_creation_tokens INTEGER NOT NULL DEFAULT 0"@),
    ]
}

/// The columns later versions added to the plans table.
pub open spec fn plan_columns() -> Seq<(Seq<char>, Seq<char>)> {
    seq![("models"@, "ALTER TABLE coding_plans ADD COLUMN models TEXT NOT NULL DEFAULT '[]'"@)]
}

/// The columns later versions added to the aggregators table.
pub open spec fn aggregator_columns() -> Seq<(Seq<char>, Seq<char>)> {
    seq![("current_plan_id"@, "ALTER TABLE aggregators ADD COLUMN current_plan_id INTEGER"@)]
}

/// Adds the columns later versions introduced to the tables of an older database (tables that
/// do not exist are left alone): for each of messages, coding_plans and aggregators in turn,
/// it reads the table's columns and adds exactly the wanted ones that read did not list.
pub fn migrate(db: &mut Db) -> (r: Result<(), rusqlite::Error>)
    ensures
        r is Ok ==> migrated(old(db).history(), final(db).history()),
{
    let mut msg = Vec::new();
    msg.push(column("model", "ALTER TABLE messages ADD COLUMN model TEXT NOT NULL DEFAULT ''"));
    msg.push(
        column(
            "cache_read_tokens",
            "ALTER TABLE messages ADD COLUMN cache_read_tokens INTEGER NOT NULL DEFAULT 0",
        ),
    );
    msg.push(
        column(
            "cache_creation_tokens",
            "ALTER TABLE messages ADD COLUMN cache_creation_tokens INTEGER NOT NULL DEFAULT 0",
        ),
    );
    assert(column_texts(msg@) =~= message_columns());
    let mut plans = Vec::new();
    plans.push(column("models", "ALTER TABLE coding_plans ADD COLUMN models TEXT NOT NULL DEFAULT '[]'"));
    assert(column_texts(plans@) =~= plan_columns());
    let mut aggs = Vec::new();
    aggs.push(column("current_plan_id", "ALTER TABLE aggregators ADD COLUMN current_plan_id INTEGER"));
    assert(column_texts(aggs@) =~= aggregator_columns());
    migrate_table(db, "messages", &msg)?;
    let ghost h1 = db.history();
    migrate_table(db, "coding_plans", &plans)?;
    let ghost h2 = db.history();
    migrate_table(db, "aggregators", &aggs)?;
    assert(table_migrated(old(db).history(), h1, "messages"@, message_columns()));
    assert(table_migrated(h1, h2, "coding_plans"@, plan_columns()));
    Ok(())
}

/// `after` is `before` followed by the migration of the messages, coding_plans and aggregators
/// tables in turn (see [`table_migrated`]).
pub open spec fn migrated(before: Seq<Sent>, after: Seq<Sent>) -> bool {
    exists|h1: Seq<Sent>, h2: Seq<Sent>|
        #[trigger] table_migrated(before, h1, "messages"@, message_columns())
        && #[trigger] table_migrated(h1, h2, "coding_plans"@, plan_columns())
        && table_migrated(h2, after, "aggregators"@, aggregator_columns())
}


// ---------------------------------------------------------------------------
// Coding plans
// ---------------------------------------------------------------------------

/// The plans stored in `rows` (one per row, plan columns first).
fn plans_from_rows(rows: &Vec<Vec<SqlValue>>, kinds: &Vec<ColumnKind>) -> (ps: Vec<CodingPlan>)
    requires
        kinds@ == plan_kind_seq(),
        forall|j: int| 0 <= j < rows@.len() ==> row_fits(#[trigger] rows@[j]@, kinds@),
    ensures
        ps@.len() == rows@.len(),
        forall|j: int| 0 <= j < ps@.len() ==> plan_row(rows@[j]@, 0, #[trigger] ps@[j]),
        forall|j: int| 0 <= j < ps@.len() ==> stored_plan(#[trigger] ps@[j]),
{
    let mut ps: Vec<CodingPlan> = Vec::new();
    let mut i: usize = 0;
    while i < rows.len()
        invariant
            0 <= i <= rows@.len(),
            kinds@ == plan_kind_seq(),
            forall|j: int| 0 <= j < rows@.len() ==> row_fits(#[trigger] rows@[j]@, kinds@),
            ps@.len() == i,
            forall|j: int| 0 <= j < i ==> plan_row(rows@[j]@, 0, #[trigger] ps@[j]),
            forall|j: int| 0 <= j < i ==> stored_plan(#[trigger] ps@[j]),
        decreases rows.len() - i,
    {
        assert(row_fits(rows@[i as int]@, kinds@));
        ps.push(plan_from_row(&rows[i], 0));
        assert(plan_row(rows@[i as int]@, 0, ps@[i as int]));
        i = i + 1;
    }
    ps
}

/// All plans, by id.
pub fn list_plans(db: &mut Db) -> (r: Result<Vec<CodingPlan>, rusqlite::Error>)
    ensures
        changes(final(db).history()) == changes(old(db).history()),
        one_query(old(db).history(), final(db).history(), LIST_PLANS_SQL@, Seq::empty()),
        r matches Ok(ps) ==> plans_in(final(db).history().last().rows, ps@),
        r matches Ok(ps) ==> forall|j: int| 0 <= j < ps@.len() ==> stored_plan(#[trigger] ps@[j]),
{
    let mut kinds = Vec::new();
    plan_kinds(&mut kinds);
    assert(kinds@ =~= plan_kind_seq());
    let args: Vec<SqlArg> = Vec::new();
    assert(params(args@) =~= Seq::<Param>::empty());
    let rows = db.query(LIST_PLANS_SQL, args.as_slice(), kinds.as_slice())?;
    let ps = plans_from_rows(&rows, &kinds);
    assert(forall|j: int| 0 <= j < rows@.len() ==> #[trigger] rows_view(rows@)[j] == rows@[j]@);
    Ok(ps)
}

/// Reads every plan, by id.
pub const LIST_PLANS_SQL: &'static str = "SELECT id, name, base_url, auth_token, remark, enabled, created_at, models FROM coding_plans ORDER BY id";

/// Reads one plan.
pub const GET_PLAN_SQL: &'static str = "SELECT id, name, base_url, auth_token, remark, enabled, created_at, models FROM coding_plans WHERE id=?1";

/// Reads every aggregator, by id.
pub const LIST_AGGREGATORS_SQL: &'static str = "SELECT id, name, port, auth_token, strategy, token_threshold, current_plan_id, created_at FROM aggregators ORDER BY id";

/// Reads one aggregator.
pub const GET_AGGREGATOR_SQL: &'static str = "SELECT id, name, port, auth_token, strategy, token_threshold, current_plan_id, created_at FROM aggregators WHERE id=?1";

/// `ps` are the plans stored in `rows`, one per row in order.
pub open spec fn plans_in(rows: Seq<Seq<SqlValue>>, ps: Seq<CodingPlan>) -> bool {
    &&& ps.len() == rows.len()
    &&& forall|j: int| 0 <= j < ps.len() ==> plan_row(rows[j], 0, #[trigger] ps[j])
}

/// `v` are the aggregators stored in `rows`, one per row in order.
pub open spec fn aggregators_in(rows: Seq<Seq<SqlValue>>, v: Seq<Aggregator>) -> bool {
    &&& v.len() == rows.len()
    &&& forall|j: int| 0 <= j < v.len() ==> aggregator_row(rows[j], #[trigger] v[j])
}

/// The plan with id `id`, if any.
pub fn get_plan(db: &mut Db, id: i64) -> (r: Result<Option<CodingPlan>, rusqlite::Error>)
    ensures
        changes(final(db).history()) == changes(old(db).history()),
        one_query(old(db).history(), final(db).history(), GET_PLAN_SQL@, seq![Param::Int(id)]),
        r matches Ok(None) ==> final(db).history().last().rows.len() == 0,
        r matches Ok(Some(p)) ==> final(db).history().last().rows.len() > 0 && plan_row(
            final(db).history().last().rows[0],
            0,
            p,
        ),
        r matches Ok(Some(p)) ==> stored_plan(p),
{
    let mut kinds = Vec::new();
    plan_kinds(&mut kinds);
    assert(kinds@ =~= plan_kind_seq());
    let mut args = Vec::new();
    args.push(SqlArg::Int(id));
    assert(params(args@) =~= seq![Param::Int(id)]);
    let rows = db.query(GET_PLAN_SQL, args.as_slice(), kinds.as_slice())?;
    let ps = plans_from_rows(&rows, &kinds);
    assert(rows@.len() > 0 ==> rows_view(rows@)[0] == rows@[0]@);
    if ps.len() == 0 {
        Ok(None)
    } else {
        let p = ps[0].duplicate();
        proof {
            assert(stored_plan(ps@[0]));
            let row = choose|row: Seq<SqlValue>| row_fits(row, plan_kind_seq()) && #[trigger] plan_row(row, 0, ps@[0]);
            assert(plan_row(row, 0, p));
        }
        Ok(Some(p))
    }
}

/// Stores a new plan.
pub const INSERT_PLAN_SQL: &'static str = "INSERT INTO coding_plans (name, base_url, auth_token, remark, enabled, created_at, models)
         VALUES (?1, ?2, ?3, ?4, 1, ?5, ?6)";

/// Stores a plan's new settings.
pub const UPDATE_PLAN_SQL: &'static str = "UPDATE coding_plans SET name=?2, base_url=?3, auth_token=?4, remark=?5, enabled=?6, models=?7 WHERE id=?1";

/// Stores a new aggregator.
pub const INSERT_AGGREGATOR_SQL: &'static str = "INSERT INTO aggregators (name, port, auth_token, strategy, token_threshold, created_at)
         VALUES (?1, ?2, ?3, ?4, ?5, ?6)";

/// Stores an aggregator's new settings.
pub const UPDATE_AGGREGATOR_SQL: &'static str = "UPDATE aggregators SET name=?2, port=?3, token_threshold=?4, strategy=?5 WHERE id=?1";

/// The write that stores the new aggregator `a`.
pub open spec fn new_aggregator_write(a: Aggregator) -> Sent {
    change(
        INSERT_AGGREGATOR_SQL@,
        seq![
            Param::Text(a.name@),
            Param::Int(a.port),
            Param::Text(a.auth_token@),
            Param::Text(a.strategy@),
            Param::Int(a.token_threshold),
            Param::Text(a.created_at@),
        ],
    )
}

/// The write that stores a plan's new settings.
pub open spec fn update_plan_write(id: i64, name: Seq<char>, base_url: Seq<char>, auth_token: Seq<char>, remark: Seq<char>, enabled: bool, models: Seq<String>) -> Sent {
    change(
        UPDATE_PLAN_SQL@,
        seq![
            Param::Int(id),
            Param::Text(name),
            Param::Text(base_url),
            Param::Text(auth_token),
            Param::Text(remark),
            Param::Int(if enabled { 1 } else { 0 }),
            Param::Text(json_string_list(models)),
        ],
    )
}

/// The write that stores an aggregator's new settings.
pub open spec fn update_aggregator_write(id: i64, name: Seq<char>, port: i64, token_threshold: i64, strategy: Seq<char>) -> Sent {
    change(
        UPDATE_AGGREGATOR_SQL@,
        seq![
            Param::Int(id),
            Param::Text(name),
            Param::Int(port),
            Param::Int(token_threshold),
            Param::Text(strategy),
        ],
    )
}

/// Creates an enabled plan.
pub fn create_plan(
    db: &mut Db,
    name: &str,
    base_url: &str,
    auth_token: &str,
    remark: &str,
    models: &[String],
) -> (r: Result<CodingPlan, rusqlite::Error>)
    ensures
        r matches Ok(p) ==> {
            &&& p.name@ == name@
            &&& p.base_url@ == base_url@
            &&& p.auth_token@ == auth_token@
            &&& p.remark@ == remark@
            &&& p.enabled
            &&& p.models@ == models@
            &&& final(db).history() == old(db).history().push(change(
                INSERT_PLAN_SQL@,
                seq![
                    Param::Text(name@),
                    Param::Text(base_url@),
                    Param::Text(auth_token@),
                    Param::Text(remark@),
                    Param::Text(p.created_at@),
                    Param::Text(json_string_list(models@)),
                ],
            ))
        },
{
    let created = now_str();
    let mut args = Vec::new();
    args.push(SqlArg::Text(name.to_owned()));
    args.push(SqlArg::Text(base_url.to_owned()));
    args.push(SqlArg::Text(auth_token.to_owned()));
    args.push(SqlArg::Text(remark.to_owned()));
    args.push(SqlArg::Text(created.clone()));
    args.push(SqlArg::Text(json_strings(models)));
    assert(params(args@) =~= seq![
        Param::Text(name@),
        Param::Text(base_url@),
        Param::Text(auth_token@),
        Param::Text(remark@),
        Param::Text(created@),
        Param::Text(json_string_list(models@)),
    ]);
    db.run(INSERT_PLAN_SQL, args.as_slice())?;
    let id = db.last_rowid();
    let mut kept: Vec<String> = Vec::new();
    let mut i: usize = 0;
    while i < models.len()
        invariant
            0 <= i <= models@.len(),
            kept@ == models@.take(i as int),
        decreases models.len() - i,
    {
        kept.push(models[i].clone());
        assert(kept@ =~= models@.take(i + 1));
        i = i + 1;
    }
    assert(models@.take(models@.len() as int) =~= models@);
    Ok(CodingPlan {
        id,
        name: name.to_owned(),
        base_url: base_url.to_owned(),
        auth_token: auth_token.to_owned(),
        remark: remark.to_owned(),
        enabled: true,
        models: kept,
        created_at: created,
    })
}

/// Updates a plan; `None` when no plan has id `id`.
pub fn update_plan(
    db: &mut Db,
    id: i64,
    name: &str,
    base_url: &str,
    auth_token: &str,
    remark: &str,
    enabled: bool,
    models: &[String],
) -> (r: Result<Option<CodingPlan>, rusqlite::Error>)
    ensures
        r matches Ok(Some(p)) ==> stored_plan(p),
        r is Ok ==> changes(final(db).history()) == changes(old(db).history()).push(
            update_plan_write(id, name@, base_url@, auth_token@, remark@, enabled, models@),
        ),
{
    let mut args = Vec::new();
    args.push(SqlArg::Int(id));
    args.push(SqlArg::Text(name.to_owned()));
    args.push(SqlArg::Text(base_url.to_owned()));
    args.push(SqlArg::Text(auth_token.to_owned()));
    args.push(SqlArg::Text(remark.to_owned()));
    args.push(SqlArg::Int(if enabled { 1 } else { 0 }));
    args.push(SqlArg::Text(json_strings(models)));
    assert(params(args@) =~= update_plan_write(id, name@, base_url@, auth_token@, remark@, enabled, models@).args);
    let n = db.run(UPDATE_PLAN_SQL, args.as_slice())?;
    if n == 0 {
        return Ok(None);
    }
    get_plan(db, id)
}

/// Removes a plan's bindings.
pub const UNBIND_PLAN_SQL: &'static str = "DELETE FROM aggregator_plans WHERE plan_id=?1";

/// Removes a plan.
pub const DELETE_PLAN_SQL: &'static str = "DELETE FROM coding_plans WHERE id=?1";

/// Deletes a plan and unbinds it from every aggregator; the number of plans deleted. The
/// bindings go first; when that fails nothing more is sent.
pub fn delete_plan(db: &mut Db, id: i64) -> (r: Result<usize, rusqlite::Error>)
    ensures
        r is Ok ==> final(db).history() == old(db).history() + seq![
            change(UNBIND_PLAN_SQL@, seq![Param::Int(id)]),
            change(DELETE_PLAN_SQL@, seq![Param::Int(id)]),
        ],
{
    let mut args = Vec::new();
    args.push(SqlArg::Int(id));
    assert(params(args@) =~= seq![Param::Int(id)]);
    db.run(UNBIND_PLAN_SQL, args.as_slice())?;
    let r = db.run(DELETE_PLAN_SQL, args.as_slice());
    assert(final(db).history() =~= old(db).history() + seq![
        change(UNBIND_PLAN_SQL@, seq![Param::Int(id)]),
        change(DELETE_PLAN_SQL@, seq![Param::Int(id)]),
    ]);
    r
}

// ---------------------------------------------------------------------------
// Aggregators
// ---------------------------------------------------------------------------

fn aggregators_from_rows(rows: &Vec<Vec<SqlValue>>, kinds: &Vec<ColumnKind>) -> (r: Vec<Aggregator>)
    requires
        kinds@ == aggregator_kind_seq(),
        forall|j: int| 0 <= j < rows@.len() ==> row_fits(#[trigger] rows@[j]@, kinds@),
    ensures
        r@.len() == rows@.len(),
        forall|j: int| 0 <= j < r@.len() ==> aggregator_row(rows@[j]@, #[trigger] r@[j]),
        forall|j: int| 0 <= j < r@.len() ==> stored_aggregator(#[trigger] r@[j]),
{
    let mut out: Vec<Aggregator> = Vec::new();
    let mut i: usize = 0;
    while i < rows.len()
        invariant
            0 <= i <= rows@.len(),
            kinds@ == aggregator_kind_seq(),
            forall|j: int| 0 <= j < rows@.len() ==> row_fits(#[trigger] rows@[j]@, kinds@),
            out@.len() == i,
            forall|j: int| 0 <= j < i ==> aggregator_row(rows@[j]@, #[trigger] out@[j]),
            forall|j: int| 0 <= j < i ==> stored_aggregator(#[trigger] out@[j]),
        decreases rows.len() - i,
    {
        assert(row_fits(rows@[i as int]@, kinds@));
        out.push(aggregator_from_row(&rows[i]));
        assert(aggregator_row(rows@[i as int]@, out@[i as int]));
        i = i + 1;
    }
    out
}

/// All aggregators, by id.
pub fn list_aggregators(db: &mut Db) -> (r: Result<Vec<Aggregator>, rusqlite::Error>)
    ensures
        changes(final(db).history()) == changes(old(db).history()),
        one_query(old(db).history(), final(db).history(), LIST_AGGREGATORS_SQL@, Seq::empty()),
        r matches Ok(v) ==> aggregators_in(final(db).history().last().rows, v@),
        r matches Ok(v) ==> forall|j: int| 0 <= j < v@.len() ==> stored_aggregator(#[trigger] v@[j]),
{
    let kinds = aggregator_kinds();
    let args: Vec<SqlArg> = Vec::new();
    assert(params(args@) =~= Seq::<Param>::empty());
    let rows = db.query(LIST_AGGREGATORS_SQL, args.as_slice(), kinds.as_slice())?;
    let v = aggregators_from_rows(&rows, &kinds);
    assert(forall|j: int| 0 <= j < rows@.len() ==> #[trigger] rows_view(rows@)[j] == rows@[j]@);
    Ok(v)
}

/// The aggregator with id `id`, if any.
pub fn get_aggregator(db: &mut Db, id: i64) -> (r: Result<Option<Aggregator>, rusqlite::Error>)
    ensures
        changes(final(db).history()) == changes(old(db).history()),
        one_query(old(db).history(), final(db).history(), GET_AGGREGATOR_SQL@, seq![Param::Int(id)]),
        r matches Ok(None) ==> final(db).history().last().rows.len() == 0,
        r matches Ok(Some(a)) ==> final(db).history().last().rows.len() > 0 && aggregator_row(
            final(db).history().last().rows[0],
            a,
        ),
        r matches Ok(Some(a)) ==> stored_aggregator(a),
{
    let kinds = aggregator_kinds();
    let mut args = Vec::new();
    args.push(SqlArg::Int(id));
    assert(params(args@) =~= seq![Param::Int(id)]);
    let rows = db.query(GET_AGGREGATOR_SQL, args.as_slice(), kinds.as_slice())?;
    if rows.len() == 0 {
        Ok(None)
    } else {
        assert(row_fits(rows@[0]@, kinds@));
        let a = aggregator_from_row(&rows[0]);
        assert(aggregator_row(rows@[0]@, a));
        assert(rows_view(rows@)[0] == rows@[0]@);
        Ok(Some(a))
    }
}

/// Creates an aggregator with the given strategy and no current plan.
pub fn create_aggregator(
    db: &mut Db,
    name: &str,
    port: i64,
    auth_token: &str,
    token_threshold: i64,
    strategy: &str,
) -> (r: Result<Aggregator, rusqlite::Error>)
    ensures
        r matches Ok(a) ==> {
            &&& a.name@ == name@
            &&& a.port == port
            &&& a.auth_token@ == auth_token@
            &&& a.strategy@ == strategy@
            &&& a.token_threshold == token_threshold
            &&& a.current_plan_id is None
            &&& final(db).history() == old(db).history().push(new_aggregator_write(a))
            &&& changes(final(db).history()) == changes(old(db).history()).push(new_aggregator_write(a))
        },
{
    let created = now_str();
    let mut args = Vec::new();
    args.push(SqlArg::Text(name.to_owned()));
    args.push(SqlArg::Int(port));
    args.push(SqlArg::Text(auth_token.to_owned()));
    args.push(SqlArg::Text(strategy.to_owned()));
    args.push(SqlArg::Int(token_threshold));
    args.push(SqlArg::Text(created.clone()));
    assert(params(args@) =~= seq![
        Param::Text(name@),
        Param::Int(port),
        Param::Text(auth_token@),
        Param::Text(strategy@),
        Param::Int(token_threshold),
        Param::Text(created@),
    ]);
    db.run(INSERT_AGGREGATOR_SQL, args.as_slice())?;
    let id = db.last_rowid();
    Ok(Aggregator {
        id,
        name: name.to_owned(),
        port,
        auth_token: auth_token.to_owned(),
        strategy: strategy.to_owned(),
        token_threshold,
        current_plan_id: None,
        created_at: created,
    })
}

/// Updates an aggregator's settings; `None` when no aggregator has id `id`.
pub fn update_aggregator(
    db: &mut Db,
    id: i64,
    name: &str,
    port: i64,
    token_threshold: i64,
    strategy: &str,
) -> (r: Result<Option<Aggregator>, rusqlite::Error>)
    ensures
        r matches Ok(Some(a)) ==> stored_aggregator(a),
        r is Ok ==> changes(final(db).history()) == changes(old(db).history()).push(
            update_aggregator_write(id, name@, port, token_threshold, strategy@),
        ),
        final(db).history().len() >= old(db).history().len(),
        final(db).history().take(old(db).history().len() as int) == old(db).history(),
{
    let mut args = Vec::new();
    args.push(SqlArg::Int(id));
    args.push(SqlArg::Text(name.to_owned()));
    args.push(SqlArg::Int(port));
    args.push(SqlArg::Int(token_threshold));
    args.push(SqlArg::Text(strategy.to_owned()));
    assert(params(args@) =~= update_aggregator_write(id, name@, port, token_threshold, strategy@).args);
    let n = db.run(UPDATE_AGGREGATOR_SQL, args.as_slice())?;
    if n == 0 {
        return Ok(None);
    }
    get_aggregator(db, id)
}

/// Removes an aggregator's bindings.
pub const UNBIND_AGGREGATOR_SQL: &'static str = "DELETE FROM aggregator_plans WHERE aggregator_id=?1";

/// Removes an aggregator.
pub const DELETE_AGGREGATOR_SQL: &'static str = "DELETE FROM aggregators WHERE id=?1";

/// Deletes an aggregator and its bindings; the number of aggregators deleted. The bindings go
/// first; when that fails nothing more is sent.
pub fn delete_aggregator(db: &mut Db, id: i64) -> (r: Result<usize, rusqlite::Error>)
    ensures
        r is Ok ==> final(db).history() == old(db).history() + seq![
            change(UNBIND_AGGREGATOR_SQL@, seq![Param::Int(id)]),
            change(DELETE_AGGREGATOR_SQL@, seq![Param::Int(id)]),
        ],
{
    let mut args = Vec::new();
    args.push(SqlArg::Int(id));
    assert(params(args@) =~= seq![Param::Int(id)]);
    db.run(UNBIND_AGGREGATOR_SQL, args.as_slice())?;
    let r = db.run(DELETE_AGGREGATOR_SQL, args.as_slice());
    assert(final(db).history() =~= old(db).history() + seq![
        change(UNBIND_AGGREGATOR_SQL@, seq![Param::Int(id)]),
        change(DELETE_AGGREGATOR_SQL@, seq![Param::Int(id)]),
    ]);
    r
}

/// Stores an aggregator's current plan.
pub const SET_CURRENT_SQL: &'static str = "UPDATE aggregators SET current_plan_id=?2 WHERE id=?1";

/// Clears an aggregator's current plan.
pub const CLEAR_CURRENT_SQL: &'static str = "UPDATE aggregators SET current_plan_id=NULL WHERE id=?1";

/// The write that records `plan_id` as the aggregator's current plan.
pub open spec fn set_current_write(aggregator_id: i64, plan_id: i64) -> Sent {
    change(SET_CURRENT_SQL@, seq![Param::Int(aggregator_id), Param::Int(plan_id)])
}

/// The write that clears the aggregator's current plan.
pub open spec fn clear_current_write(aggregator_id: i64) -> Sent {
    change(CLEAR_CURRENT_SQL@, seq![Param::Int(aggregator_id)])
}

/// Records `plan_id` as the aggregator's current plan; whether the aggregator exists.
pub fn set_current_plan(db: &mut Db, aggregator_id: i64, plan_id: i64) -> (r: Result<
    bool,
    rusqlite::Error,
>)
    ensures
        final(db).history() == old(db).history().push(set_current_write(aggregator_id, plan_id)),
        changes(final(db).history()) == changes(old(db).history()).push(set_current_write(aggregator_id, plan_id)),
{
    let mut args = Vec::new();
    args.push(SqlArg::Int(aggregator_id));
    args.push(SqlArg::Int(plan_id));
    assert(params(args@) =~= seq![Param::Int(aggregator_id), Param::Int(plan_id)]);
    let n = db.run(SET_CURRENT_SQL, args.as_slice())?;
    Ok(n > 0)
}

/// Clears the aggregator's current plan; whether the aggregator exists.
pub fn clear_current_plan(db: &mut Db, aggregator_id: i64) -> (r: Result<
    bool,
    rusqlite::Error,
>)
    ensures
        final(db).history() == old(db).history().push(clear_current_write(aggregator_id)),
        changes(final(db).history()) == changes(old(db).history()).push(clear_current_write(aggregator_id)),
{
    let mut args = Vec::new();
    args.push(SqlArg::Int(aggregator_id));
    assert(params(args@) =~= seq![Param::Int(aggregator_id)]);
    let n = db.run(CLEAR_CURRENT_SQL, args.as_slice())?;
    Ok(n > 0)
}

// ---------------------------------------------------------------------------
// Bindings
// ---------------------------------------------------------------------------

/// `b` is the binding stored in `row` (binding id, position, used tokens, then the plan).
pub open spec fn binding_row(row: Seq<SqlValue>, b: BindingWithPlan) -> bool {
    &&& b.binding_id == int_of(row[0])
    &&& b.position == int_of(row[1])
    &&& b.used_tokens == int_of(row[2])
    &&& plan_row(row, 3, b.plan)
}

/// Reads an aggregator's bindings with their plans, in rotation order.
pub const LIST_BINDINGS_SQL: &'static str = "SELECT ap.id, ap.position, ap.used_tokens,
                p.id, p.name, p.base_url, p.auth_token, p.remark, p.enabled, p.created_at, p.models
         FROM aggregator_plans ap
         JOIN coding_plans p ON p.id = ap.plan_id
         WHERE ap.aggregator_id=?1
         ORDER BY ap.position, ap.id";

/// `bs` are the bindings stored in `rows`, one per row in order.
pub open spec fn bindings_in(rows: Seq<Seq<SqlValue>>, bs: Seq<BindingWithPlan>) -> bool {
    &&& bs.len() == rows.len()
    &&& forall|j: int| 0 <= j < bs.len() ==> binding_row(rows[j], #[trigger] bs[j])
}

/// The bindings of an aggregator in rotation order (position, then binding id).
pub fn list_bindings(db: &mut Db, aggregator_id: i64) -> (r: Result<
    Vec<BindingWithPlan>,
    rusqlite::Error,
>)
    ensures
        one_query(old(db).history(), final(db).history(), LIST_BINDINGS_SQL@, seq![Param::Int(aggregator_id)]),
        changes(final(db).history()) == changes(old(db).history()),
        r matches Ok(bs) ==> bindings_in(final(db).history().last().rows, bs@),
        r matches Ok(bs) ==> forall|j: int| 0 <= j < bs@.len() ==> stored_binding(#[trigger] bs@[j]),
{
    let mut kinds = Vec::new();
    kinds.push(ColumnKind::Int);
    kinds.push(ColumnKind::Int);
    kinds.push(ColumnKind::Int);
    plan_kinds(&mut kinds);
    assert(kinds@ =~= binding_kind_seq());
    let mut args = Vec::new();
    args.push(SqlArg::Int(aggregator_id));
    assert(params(args@) =~= seq![Param::Int(aggregator_id)]);
    let rows = db.query(LIST_BINDINGS_SQL, args.as_slice(), kinds.as_slice())?;
    let mut out: Vec<BindingWithPlan> = Vec::new();
    let mut i: usize = 0;
    while i < rows.len()
        invariant
            0 <= i <= rows@.len(),
            kinds@ == binding_kind_seq(),
            forall|j: int| 0 <= j < rows@.len() ==> row_fits(#[trigger] rows@[j]@, kinds@),
            out@.len() == i,
            forall|j: int| 0 <= j < i ==> binding_row(rows@[j]@, #[trigger] out@[j]),
            forall|j: int| 0 <= j < i ==> stored_binding(#[trigger] out@[j]),
        decreases rows.len() - i,
    {
        assert(row_fits(rows@[i as int]@, kinds@));
        let row = &rows[i];
        out.push(
            BindingWithPlan {
                binding_id: int_at(row, 0),
                position: int_at(row, 1),
                used_tokens: int_at(row, 2),
                plan: plan_from_row(row, 3),
            },
        );
        assert(binding_row(rows@[i as int]@, out@[i as int]));
        i = i + 1;
    }
    assert(forall|j: int| 0 <= j < rows@.len() ==> #[trigger] rows_view(rows@)[j] == rows@[j]@);
    Ok(out)
}

/// The usage recorded for `plan_id` among (plan id, used tokens) pairs (the last one wins, as
/// in a map filled in order); 0 when absent.
pub open spec fn prior_usage(old: Seq<(i64, i64)>, plan_id: i64) -> i64
    decreases old.len(),
{
    if old.len() == 0 {
        0
    } else if old.last().0 == plan_id {
        old.last().1
    } else {
        prior_usage(old.drop_last(), plan_id)
    }
}

/// The usage recorded for `plan_id` among (plan id, used tokens) pairs.
pub fn prior_usage_of(old: &Vec<(i64, i64)>, plan_id: i64) -> (r: i64)
    ensures
        r == prior_usage(old@, plan_id),
{
    let mut i: usize = old.len();
    assert(old@.take(old@.len() as int) =~= old@);
    while i > 0
        invariant
            0 <= i <= old@.len(),
            prior_usage(old@, plan_id) == prior_usage(old@.take(i as int), plan_id),
        decreases i,
    {
        proof {
            assert(old@.take(i as int).drop_last() =~= old@.take(i - 1));
            assert(old@.take(i as int).last() == old@[i - 1]);
        }
        if old[i - 1].0 == plan_id {
            return old[i - 1].1;
        }
        i = i - 1;
    }
    0
}

/// The bindings to write when an aggregator's plans are set to `plan_ids`: one per plan, in
/// the given order (position = index), each keeping the usage the plan had before (0 for a
/// newly bound plan). Rows are (plan id, position, used tokens).
pub fn planned_bindings(old: &Vec<(i64, i64)>, plan_ids: &[i64]) -> (r: Vec<(i64, i64, i64)>)
    ensures
        r@.len() == plan_ids@.len(),
        forall|i: int|
            0 <= i < r@.len() ==> #[trigger] r@[i] == (plan_ids@[i], i as i64, prior_usage(
                old@,
                plan_ids@[i],
            )),
{
    let mut out: Vec<(i64, i64, i64)> = Vec::new();
    let mut i: usize = 0;
    while i < plan_ids.len()
        invariant
            0 <= i <= plan_ids@.len(),
            out@.len() == i,
            forall|j: int|
                0 <= j < i ==> #[trigger] out@[j] == (plan_ids@[j], j as i64, prior_usage(
                    old@,
                    plan_ids@[j],
                )),
        decreases plan_ids.len() - i,
    {
        let pid = plan_ids[i];
        out.push((pid, i as i64, prior_usage_of(old, pid)));
        i = i + 1;
    }
    out
}

/// Reads the plan and usage of each of an aggregator's bindings.
pub const BOUND_USAGE_SQL: &'static str = "SELECT plan_id, used_tokens FROM aggregator_plans WHERE aggregator_id=?1";

/// Stores one binding.
pub const INSERT_BINDING_SQL: &'static str = "INSERT INTO aggregator_plans (aggregator_id, plan_id, position, used_tokens)
             VALUES (?1, ?2, ?3, ?4)";

/// The (plan id, used tokens) pairs stored in `rows`.
pub open spec fn usage_pairs(rows: Seq<Seq<SqlValue>>) -> Seq<(i64, i64)> {
    rows.map_values(|r: Seq<SqlValue>| (int_of(r[0]), int_of(r[1])))
}

/// The writes that store the bindings of `aggregator_id` to `plan_ids` in that order
/// (position = index), each keeping the usage `old` records for its plan.
pub open spec fn binding_inserts(aggregator_id: i64, old: Seq<(i64, i64)>, plan_ids: Seq<i64>) -> Seq<Sent> {
    Seq::new(
        plan_ids.len(),
        |i: int|
            change(
                INSERT_BINDING_SQL@,
                seq![
                    Param::Int(aggregator_id),
                    Param::Int(plan_ids[i]),
                    Param::Int(i as i64),
                    Param::Int(prior_usage(old, plan_ids[i])),
                ],
            ),
    )
}

/// Rebinds an aggregator to `plan_ids` in that rotation order; plans that stay bound keep
/// their accumulated usage. Sends: the read of the current bindings' usage, the removal of
/// the bindings, then one insert per plan (see [`binding_inserts`]).
pub fn set_aggregator_plans(db: &mut Db, aggregator_id: i64, plan_ids: &[i64]) -> (r: Result<
    (),
    rusqlite::Error,
>)
    ensures
        r is Ok ==> {
            let h = final(db).history();
            let n = old(db).history().len() as int;
            &&& h.len() >= n + 2
            &&& one_query(old(db).history(), h.take(n + 1), BOUND_USAGE_SQL@, seq![Param::Int(aggregator_id)])
            &&& h.skip(n + 1) == seq![change(UNBIND_AGGREGATOR_SQL@, seq![Param::Int(aggregator_id)])]
                + binding_inserts(aggregator_id, usage_pairs(h[n].rows), plan_ids@)
            &&& changes(h) == changes(old(db).history()) + seq![
                change(UNBIND_AGGREGATOR_SQL@, seq![Param::Int(aggregator_id)]),
            ] + binding_inserts(aggregator_id, usage_pairs(h[n].rows), plan_ids@)
        },
{
    let ghost h0 = db.history();
    let mut kinds = Vec::new();
    kinds.push(ColumnKind::Int);
    kinds.push(ColumnKind::Int);
    let mut args = Vec::new();
    args.push(SqlArg::Int(aggregator_id));
    assert(params(args@) =~= seq![Param::Int(aggregator_id)]);
    let rows = db.query(BOUND_USAGE_SQL, args.as_slice(), kinds.as_slice())?;
    let ghost h1 = db.history();
    let mut old: Vec<(i64, i64)> = Vec::new();
    let mut i: usize = 0;
    while i < rows.len()
        invariant
            0 <= i <= rows@.len(),
            kinds@.len() == 2,
            forall|j: int| 0 <= j < rows@.len() ==> row_fits(#[trigger] rows@[j]@, kinds@),
            old@.len() == i,
            forall|j: int| 0 <= j < i ==> #[trigger] old@[j] == (int_of(rows@[j]@[0]), int_of(rows@[j]@[1])),
        decreases rows.len() - i,
    {
        assert(row_fits(rows@[i as int]@, kinds@));
        old.push((int_at(&rows[i], 0), int_at(&rows[i], 1)));
        i = i + 1;
    }
    assert(old@ =~= usage_pairs(rows_view(rows@)));
    db.run(UNBIND_AGGREGATOR_SQL, args.as_slice())?;
    let ghost h2 = db.history();
    let planned = planned_bindings(&old, plan_ids);
    let ghost inserts = binding_inserts(aggregator_id, old@, plan_ids@);
    let mut k: usize = 0;
    while k < planned.len()
        invariant
            0 <= k <= planned@.len(),
            planned@.len() == plan_ids@.len(),
            forall|j: int|
                0 <= j < planned@.len() ==> #[trigger] planned@[j] == (plan_ids@[j], j as i64, prior_usage(
                    old@,
                    plan_ids@[j],
                )),
            inserts == binding_inserts(aggregator_id, old@, plan_ids@),
            db.history() == h2 + inserts.take(k as int),
        decreases planned.len() - k,
    {
        let (pid, position, used) = planned[k];
        let mut row_args = Vec::new();
        row_args.push(SqlArg::Int(aggregator_id));
        row_args.push(SqlArg::Int(pid));
        row_args.push(SqlArg::Int(position));
        row_args.push(SqlArg::Int(used));
        assert(params(row_args@) =~= seq![
            Param::Int(aggregator_id),
            Param::Int(pid),
            Param::Int(position),
            Param::Int(used),
        ]);
        assert(planned@[k as int] == (plan_ids@[k as int], k as i64, prior_usage(old@, plan_ids@[k as int])));
        db.run(INSERT_BINDING_SQL, row_args.as_slice())?;
        assert(inserts.take(k + 1) =~= inserts.take(k as int).push(inserts[k as int]));
        k = k + 1;
    }
    proof {
        assert(inserts.take(k as int) =~= inserts);
        assert(h1 =~= db.history().take(h0.len() as int + 1));
        assert(db.history()[h0.len() as int] == h1.last());
        let tail = seq![change(UNBIND_AGGREGATOR_SQL@, seq![Param::Int(aggregator_id)])] + inserts;
        assert(db.history().skip(h0.len() as int + 1) =~= tail);
        assert(db.history() =~= h1 + tail);
        lemma_changes_append(h1, tail);
        assert(forall|i: int| 0 <= i < tail.len() ==> !(#[trigger] tail[i]).query);
        lemma_changes_of_changes(tail);
    }
    Ok(())
}

/// Adds `tokens` to a binding's usage; the number of bindings changed (0 when the binding no
/// longer exists, e.g. it was rebound while a request was being forwarded).
pub fn add_binding_usage(db: &mut Db, binding_id: i64, tokens: i64) -> (r: Result<
    usize,
    rusqlite::Error,
>)
    ensures
        final(db).history() == old(db).history().push(add_usage_write(binding_id, tokens)),
        changes(final(db).history()) == changes(old(db).history()).push(add_usage_write(binding_id, tokens)),
{
    let mut args = Vec::new();
    args.push(SqlArg::Int(binding_id));
    args.push(SqlArg::Int(tokens));
    assert(params(args@) =~= seq![Param::Int(binding_id), Param::Int(tokens)]);
    db.run(ADD_USAGE_SQL, args.as_slice())
}

/// Adds to a binding's usage.
pub const ADD_USAGE_SQL: &'static str = "UPDATE aggregator_plans SET used_tokens = used_tokens + ?2 WHERE id=?1";

/// Zeroes the usage of an aggregator's bindings.
pub const RESET_USAGE_SQL: &'static str = "UPDATE aggregator_plans SET used_tokens=0 WHERE aggregator_id=?1";

/// The write that adds `tokens` to a binding's usage.
pub open spec fn add_usage_write(binding_id: i64, tokens: i64) -> Sent {
    change(ADD_USAGE_SQL@, seq![Param::Int(binding_id), Param::Int(tokens)])
}

/// The write that zeroes the usage of an aggregator's bindings.
pub open spec fn reset_usage_write(aggregator_id: i64) -> Sent {
    change(RESET_USAGE_SQL@, seq![Param::Int(aggregator_id)])
}

/// Resets the usage of every binding of an aggregator to zero; the number of bindings changed.
pub fn reset_binding_usage(db: &mut Db, aggregator_id: i64) -> (r: Result<
    usize,
    rusqlite::Error,
>)
    ensures
        final(db).history() == old(db).history().push(reset_usage_write(aggregator_id)),
        changes(final(db).history()) == changes(old(db).history()).push(reset_usage_write(aggregator_id)),
{
    let mut args = Vec::new();
    args.push(SqlArg::Int(aggregator_id));
    assert(params(args@) =~= seq![Param::Int(aggregator_id)]);
    db.run(RESET_USAGE_SQL, args.as_slice())
}


// ---------------------------------------------------------------------------
// Usage statistics
// ---------------------------------------------------------------------------

/// Columns of a usage total over messages.
pub const STATS_SELECT: &'static str = "SELECT COALESCE(SUM(total_tokens),0), COALESCE(SUM(prompt_tokens),0),
        COALESCE(SUM(completion_tokens),0), COALESCE(SUM(cache_read_tokens),0),
        COALESCE(SUM(cache_creation_tokens),0), COUNT(*)
 FROM messages";

/// Runs a usage total query (`where_clause` may be empty) with the given parameters.
fn stats_query(db: &mut Db, where_clause: &str, args: &[SqlArg]) -> (r: Result<
    UsageStats,
    rusqlite::Error,
>)
    ensures
        changes(final(db).history()) == changes(old(db).history()),
        one_query(old(db).history(), final(db).history(), stats_sql(where_clause@), params(args@)),
        r matches Ok(u) ==> usage_in(final(db).history().last().rows, u),
        r matches Ok(u) ==> stored_usage(u),
{
    let mut kinds = Vec::new();
    int_kinds(&mut kinds, 6);
    assert(kinds@ =~= usage_kind_seq());
    let mut sql = STATS_SELECT.to_owned();
    sql.append(" ");
    sql.append(where_clause);
    let rows = db.query(sql.as_str(), args, kinds.as_slice())?;
    if rows.len() == 0 {
        proof {
            lemma_no_usage_stored();
        }
        return Ok(UsageStats::zero());
    }
    assert(row_fits(rows@[0]@, kinds@));
    let u = usage_from_row(&rows[0], 0);
    assert(usage_row(rows@[0]@, 0, u));
    assert(rows_view(rows@)[0] == rows@[0]@);
    Ok(u)
}

/// A usage total query with the `WHERE` clause `where_clause` (which may be empty).
pub open spec fn stats_sql(where_clause: Seq<char>) -> Seq<char> {
    STATS_SELECT@ + " "@ + where_clause
}

/// `u` is the usage total that the rows of a usage query hold (all zero when none came back).
pub open spec fn usage_in(rows: Seq<Seq<SqlValue>>, u: UsageStats) -> bool {
    if rows.len() == 0 {
        u == UsageStats::none()
    } else {
        usage_row(rows[0], 0, u)
    }
}

/// The text parameters `values`.
pub open spec fn text_params(values: Seq<Seq<char>>) -> Seq<Param> {
    values.map_values(|v: Seq<char>| Param::Text(v))
}

/// `t` is the trip meter that the four reads `h[n..n + 4]` give: the start, the current pause,
/// the closed pauses, then the usage over the messages the trip filter keeps.
pub open spec fn trip_read(h: Seq<Sent>, n: int, t: TripStats) -> bool {
    &&& h.len() == n + 4
    &&& h[n].query && h[n].sql == GET_SETTING_SQL@ && h[n].args == seq![Param::Text(SETTING_TRIP_STARTED_AT@)]
    &&& h[n + 1].query && h[n + 1].sql == GET_SETTING_SQL@ && h[n + 1].args == seq![Param::Text(SETTING_TRIP_PAUSED_AT@)]
    &&& h[n + 2].query && h[n + 2].sql == GET_SETTING_SQL@ && h[n + 2].args == seq![Param::Text(SETTING_TRIP_PAUSES@)]
    &&& opt_view(t.started_at) == setting_in(h[n].rows)
    &&& t.paused == setting_in(h[n + 1].rows) is Some
    &&& exists|paused_at: Option<String>|
        opt_view(paused_at) == setting_in(h[n + 1].rows) && #[trigger] trip_filter_sent(
            h[n + 3],
            t.started_at,
            pauses_in(h[n + 2].rows),
            paused_at,
        )
    &&& usage_in(h[n + 3].rows, t.stats)
}

/// `q` is the usage query of the trip meter with its start, closed pauses and current pause.
pub open spec fn trip_filter_sent(q: Sent, started: Option<String>, pauses: Seq<(String, String)>, paused_at: Option<String>) -> bool {
    &&& q.query
    &&& q.sql == stats_sql(where_clause(trip_conditions(started is Some, pauses.len(), paused_at is Some)))
    &&& q.args == text_params(trip_values(started, pauses, paused_at))
}

/// Usage of all messages of an aggregator.
pub fn aggregator_stats(db: &mut Db, aggregator_id: i64) -> (r: Result<
    UsageStats,
    rusqlite::Error,
>)
    ensures
        changes(final(db).history()) == changes(old(db).history()),
        one_query(old(db).history(), final(db).history(), stats_sql(BY_AGGREGATOR@), seq![Param::Int(aggregator_id)]),
        r matches Ok(u) ==> usage_in(final(db).history().last().rows, u),
        r matches Ok(u) ==> stored_usage(u),
{
    let mut args = Vec::new();
    args.push(SqlArg::Int(aggregator_id));
    assert(params(args@) =~= seq![Param::Int(aggregator_id)]);
    stats_query(db, BY_AGGREGATOR, args.as_slice())
}

/// The filter on one aggregator's messages.
pub const BY_AGGREGATOR: &'static str = "WHERE aggregator_id=?1";

/// The filter on one plan's messages.
pub const BY_PLAN: &'static str = "WHERE plan_id=?1";

/// No filter.
pub const NO_FILTER: &'static str = "";

/// Usage of all messages forwarded to a plan.
pub fn plan_stats(db: &mut Db, plan_id: i64) -> (r: Result<UsageStats, rusqlite::Error>)
    ensures
        changes(final(db).history()) == changes(old(db).history()),
        one_query(old(db).history(), final(db).history(), stats_sql(BY_PLAN@), seq![Param::Int(plan_id)]),
        r matches Ok(u) ==> usage_in(final(db).history().last().rows, u),
        r matches Ok(u) ==> stored_usage(u),
{
    let mut args = Vec::new();
    args.push(SqlArg::Int(plan_id));
    assert(params(args@) =~= seq![Param::Int(plan_id)]);
    stats_query(db, BY_PLAN, args.as_slice())
}

/// Usage of all messages.
pub fn global_stats(db: &mut Db) -> (r: Result<UsageStats, rusqlite::Error>)
    ensures
        changes(final(db).history()) == changes(old(db).history()),
        one_query(old(db).history(), final(db).history(), stats_sql(NO_FILTER@), Seq::empty()),
        r matches Ok(u) ==> usage_in(final(db).history().last().rows, u),
        r matches Ok(u) ==> stored_usage(u),
{
    let args: Vec<SqlArg> = Vec::new();
    assert(params(args@) =~= Seq::<Param>::empty());
    stats_query(db, NO_FILTER, args.as_slice())
}

// ---------------------------------------------------------------------------
// Settings and the trip meter
// ---------------------------------------------------------------------------

/// Setting holding the trip meter's start (local time, same format as message times).
pub const SETTING_TRIP_STARTED_AT: &'static str = "trip_started_at";

/// Setting holding the moment the trip meter was paused (present only while paused).
pub const SETTING_TRIP_PAUSED_AT: &'static str = "trip_paused_at";

/// Setting holding the closed pauses, a JSON array of `[start, end]` pairs (half-open).
pub const SETTING_TRIP_PAUSES: &'static str = "trip_pauses";

/// Reads a setting.
pub const GET_SETTING_SQL: &'static str = "SELECT value FROM settings WHERE key=?1";

/// The setting value that the rows of a setting read hold (`None` when no row came back).
pub open spec fn setting_in(rows: Seq<Seq<SqlValue>>) -> Option<Seq<char>> {
    if rows.len() == 0 {
        None
    } else {
        Some(text_of(rows[0][0]))
    }
}

/// The closed pauses that the rows of a read of their setting hold (none when unset or
/// damaged).
pub open spec fn pauses_in(rows: Seq<Seq<SqlValue>>) -> Seq<(String, String)> {
    match setting_in(rows) {
        Some(text) => stored_pairs(text),
        None => Seq::empty(),
    }
}

/// The value of a setting, if set.
pub fn get_setting(db: &mut Db, key: &str) -> (r: Result<Option<String>, rusqlite::Error>)
    ensures
        changes(final(db).history()) == changes(old(db).history()),
        one_query(old(db).history(), final(db).history(), GET_SETTING_SQL@, seq![Param::Text(key@)]),
        r matches Ok(v) ==> opt_view(v) == setting_in(final(db).history().last().rows),
{
    let mut kinds = Vec::new();
    kinds.push(ColumnKind::Text);
    let mut args = Vec::new();
    args.push(SqlArg::Text(key.to_owned()));
    assert(params(args@) =~= seq![Param::Text(key@)]);
    let rows = db.query(GET_SETTING_SQL, args.as_slice(), kinds.as_slice())?;
    if rows.len() == 0 {
        Ok(None)
    } else {
        assert(row_fits(rows@[0]@, kinds@));
        assert(rows_view(rows@)[0] == rows@[0]@);
        Ok(Some(text_at(&rows[0], 0)))
    }
}

/// Stores a setting, replacing an earlier value.
pub const SET_SETTING_SQL: &'static str = "INSERT INTO settings (key, value) VALUES (?1, ?2)
         ON CONFLICT(key) DO UPDATE SET value=excluded.value";

/// Removes a setting.
pub const DELETE_SETTING_SQL: &'static str = "DELETE FROM settings WHERE key=?1";

/// The write that stores `value` under `key`.
pub open spec fn set_setting_write(key: Seq<char>, value: Seq<char>) -> Sent {
    change(SET_SETTING_SQL@, seq![Param::Text(key), Param::Text(value)])
}

/// The write that removes the setting `key`.
pub open spec fn delete_setting_write(key: Seq<char>) -> Sent {
    change(DELETE_SETTING_SQL@, seq![Param::Text(key)])
}

/// Sets (or overwrites) a setting.
pub fn set_setting(db: &mut Db, key: &str, value: &str) -> (r: Result<(), rusqlite::Error>)
    ensures
        final(db).history() == old(db).history().push(set_setting_write(key@, value@)),
        changes(final(db).history()) == changes(old(db).history()).push(set_setting_write(key@, value@)),
{
    let mut args = Vec::new();
    args.push(SqlArg::Text(key.to_owned()));
    args.push(SqlArg::Text(value.to_owned()));
    assert(params(args@) =~= seq![Param::Text(key@), Param::Text(value@)]);
    db.run(SET_SETTING_SQL, args.as_slice())?;
    Ok(())
}

/// Removes a setting.
pub fn delete_setting(db: &mut Db, key: &str) -> (r: Result<(), rusqlite::Error>)
    ensures
        final(db).history() == old(db).history().push(delete_setting_write(key@)),
        changes(final(db).history()) == changes(old(db).history()).push(delete_setting_write(key@)),
{
    let mut args = Vec::new();
    args.push(SqlArg::Text(key.to_owned()));
    assert(params(args@) =~= seq![Param::Text(key@)]);
    db.run(DELETE_SETTING_SQL, args.as_slice())?;
    Ok(())
}

/// The closed pauses of the trip meter (none when the stored JSON is damaged, so a bad value
/// never breaks the statistics).
pub fn get_trip_pauses(db: &mut Db) -> (r: Result<Vec<(String, String)>, rusqlite::Error>)
    ensures
        changes(final(db).history()) == changes(old(db).history()),
        one_query(old(db).history(), final(db).history(), GET_SETTING_SQL@, seq![Param::Text(SETTING_TRIP_PAUSES@)]),
        r matches Ok(v) ==> v@ == pauses_in(final(db).history().last().rows),
        r matches Ok(v) ==> v@.len() == 0 || exists|text: Seq<char>| v@ == #[trigger] stored_pairs(text),
{
    match get_setting(db, SETTING_TRIP_PAUSES)? {
        Some(s) => Ok(pairs_from_json(s.as_str())),
        None => Ok(Vec::new()),
    }
}

/// `parts` joined with `sep`.
pub open spec fn join(parts: Seq<Seq<char>>, sep: Seq<char>) -> Seq<char>
    decreases parts.len(),
{
    if parts.len() == 0 {
        Seq::empty()
    } else if parts.len() == 1 {
        parts[0]
    } else {
        join(parts.drop_last(), sep) + sep + parts.last()
    }
}

/// The SQL `WHERE` clause requiring all `conds` (empty for none).
pub open spec fn where_clause(conds: Seq<Seq<char>>) -> Seq<char> {
    if conds.len() == 0 {
        Seq::empty()
    } else {
        "WHERE "@ + join(conds, " AND "@)
    }
}

/// The texts of `v`.
pub open spec fn texts(v: Seq<String>) -> Seq<Seq<char>> {
    v.map_values(|s: String| s@)
}

/// The `WHERE` clause requiring all `conds`.
pub fn where_of(conds: &Vec<String>) -> (r: String)
    ensures
        r@ == where_clause(texts(conds@)),
{
    if conds.len() == 0 {
        return String::new();
    }
    let mut out = "WHERE ".to_owned();
    out.append(conds[0].as_str());
    let mut i: usize = 1;
    proof {
        assert(texts(conds@).take(1) =~= seq![conds@[0]@]);
    }
    while i < conds.len()
        invariant
            1 <= i <= conds@.len(),
            out@ == "WHERE "@ + join(texts(conds@).take(i as int), " AND "@),
        decreases conds.len() - i,
    {
        proof {
            let t = texts(conds@).take(i + 1);
            assert(t.drop_last() =~= texts(conds@).take(i as int));
            assert(t.last() == conds@[i as int]@);
        }
        out.append(" AND ");
        out.append(conds[i].as_str());
        proof {
            assert(out@ =~= "WHERE "@ + join(texts(conds@).take(i + 1), " AND "@));
        }
        i = i + 1;
    }
    assert(texts(conds@).take(conds@.len() as int) =~= texts(conds@));
    out
}

/// Conditions of the trip meter: from the start (if reset), outside every closed pause
/// (half-open: a message at a pause's start is not counted, one at its end is), and before the
/// current pause (if paused).
pub open spec fn trip_conditions(started: bool, n_pauses: nat, paused: bool) -> Seq<Seq<char>> {
    (if started { seq!["created_at>=?"@] } else { Seq::empty() }) + Seq::new(
        n_pauses,
        |i: int| "(created_at<? OR created_at>=?)"@,
    ) + (if paused { seq!["created_at<?"@] } else { Seq::empty() })
}

/// The values bound to the trip meter's conditions, in order.
pub open spec fn trip_values(
    started: Option<String>,
    pauses: Seq<(String, String)>,
    paused: Option<String>,
) -> Seq<Seq<char>> {
    (match started {
        Some(s) => seq![s@],
        None => Seq::empty(),
    }) + Seq::new(
        2 * pauses.len(),
        |i: int|
            if i % 2 == 0 {
                pauses[i / 2].0@
            } else {
                pauses[i / 2].1@
            },
    ) + (match paused {
        Some(p) => seq![p@],
        None => Seq::empty(),
    })
}

/// The trip meter's filter: its `WHERE` clause and the values bound to it.
pub fn trip_filter(started: &Option<String>, pauses: &Vec<(String, String)>, paused_at: &Option<String>) -> (r: (
    String,
    Vec<String>,
))
    ensures
        r.0@ == where_clause(trip_conditions(started is Some, pauses@.len(), paused_at is Some)),
        texts(r.1@) == trip_values(*started, pauses@, *paused_at),
{
    let mut conds: Vec<String> = Vec::new();
    let mut values: Vec<String> = Vec::new();
    let ghost head = if started is Some { seq!["created_at>=?"@] } else { Seq::<Seq<char>>::empty() };
    let ghost vhead = match started {
        Some(s) => seq![s@],
        None => Seq::<Seq<char>>::empty(),
    };
    if let Some(since) = started {
        conds.push("created_at>=?".to_owned());
        values.push(since.clone());
    }
    assert(texts(conds@) =~= head);
    assert(texts(values@) =~= vhead);
    let mut i: usize = 0;
    while i < pauses.len()
        invariant
            0 <= i <= pauses@.len(),
            texts(conds@) == head + Seq::new(i as nat, |k: int| "(created_at<? OR created_at>=?)"@),
            texts(values@) == vhead + Seq::new(
                2 * i as nat,
                |k: int|
                    if k % 2 == 0 {
                        pauses@[k / 2].0@
                    } else {
                        pauses@[k / 2].1@
                    },
            ),
        decreases pauses.len() - i,
    {
        let ghost conds0 = conds@;
        let ghost values0 = values@;
        conds.push("(created_at<? OR created_at>=?)".to_owned());
        values.push(pauses[i].0.clone());
        values.push(pauses[i].1.clone());
        proof {
            assert(texts(conds@) =~= texts(conds0).push("(created_at<? OR created_at>=?)"@));
            assert(texts(values@) =~= texts(values0).push(pauses@[i as int].0@).push(pauses@[i as int].1@));
            assert(texts(conds@) =~= head + Seq::new(
                (i + 1) as nat,
                |k: int| "(created_at<? OR created_at>=?)"@,
            ));
            let f = |k: int|
                if k % 2 == 0 {
                    pauses@[k / 2].0@
                } else {
                    pauses@[k / 2].1@
                };
            let next = vhead + Seq::new(2 * (i + 1) as nat, f);
            assert forall|k: int| 0 <= k < next.len() implies #[trigger] texts(values@)[k] == next[k] by {
                if k >= vhead.len() + 2 * i {
                    let m = k - vhead.len();
                    assert(m == 2 * i || m == 2 * i + 1);
                    if m == 2 * i {
                        assert(m % 2 == 0 && m / 2 == i);
                    } else {
                        assert(m % 2 == 1 && m / 2 == i);
                    }
                }
            }
            assert(texts(values@) =~= next);
        }
        i = i + 1;
    }
    let ghost mid = texts(conds@);
    let ghost vmid = texts(values@);
    if let Some(p) = paused_at {
        conds.push("created_at<?".to_owned());
        values.push(p.clone());
    }
    proof {
        let tail = if paused_at is Some { seq!["created_at<?"@] } else { Seq::<Seq<char>>::empty() };
        let vtail = match paused_at {
            Some(p) => seq![p@],
            None => Seq::<Seq<char>>::empty(),
        };
        assert(texts(conds@) =~= mid + tail);
        assert(texts(values@) =~= vmid + vtail);
    }
    (where_of(&conds), values)
}

fn text_args(values: &Vec<String>) -> (r: Vec<SqlArg>)
    ensures
        r@.len() == values@.len(),
        forall|i: int| 0 <= i < r@.len() ==> #[trigger] r@[i] == SqlArg::Text(values@[i]),
{
    let mut out: Vec<SqlArg> = Vec::new();
    let mut i: usize = 0;
    while i < values.len()
        invariant
            0 <= i <= values@.len(),
            out@.len() == i,
            forall|j: int| 0 <= j < i ==> #[trigger] out@[j] == SqlArg::Text(values@[j]),
        decreases values.len() - i,
    {
        out.push(SqlArg::Text(values[i].clone()));
        i = i + 1;
    }
    out
}

/// The trip meter: usage since its start (all history when never reset), without the usage of
/// closed pauses, frozen at the current pause when paused.
pub fn trip_stats(db: &mut Db) -> (r: Result<TripStats, rusqlite::Error>)
    ensures
        changes(final(db).history()) == changes(old(db).history()),
        r matches Ok(t) ==> final(db).history().take(old(db).history().len() as int) == old(db).history()
            && trip_read(final(db).history(), old(db).history().len() as int, t),
        r matches Ok(t) ==> stored_usage(t.stats),
{
    let ghost h0 = db.history();
    let started_at = get_setting(db, SETTING_TRIP_STARTED_AT)?;
    let ghost h1 = db.history();
    let paused_at = get_setting(db, SETTING_TRIP_PAUSED_AT)?;
    let ghost h2 = db.history();
    let pauses = get_trip_pauses(db)?;
    let ghost h3 = db.history();
    let (clause, values) = trip_filter(&started_at, &pauses, &paused_at);
    let args = text_args(&values);
    assert(params(args@) =~= text_params(trip_values(started_at, pauses@, paused_at)));
    let stats = stats_query(db, clause.as_str(), args.as_slice())?;
    let paused = paused_at.is_some();
    let t = TripStats { started_at, paused, stats };
    proof {
        let h = db.history();
        let n = h0.len() as int;
        assert(h =~= h0.push(h1.last()).push(h2.last()).push(h3.last()).push(h.last()));
        assert(h.take(n) =~= h0);
        assert(h[n] == h1.last());
        assert(h[n + 1] == h2.last());
        assert(h[n + 2] == h3.last());
        assert(trip_filter_sent(h[n + 3], started_at, pauses_in(h[n + 2].rows), paused_at));
    }
    Ok(t)
}

/// Pauses the trip meter (recording the moment), or resumes it (closing the pause
/// `[paused at, now)`); then its statistics.
pub fn toggle_trip_pause(db: &mut Db) -> (r: Result<TripStats, rusqlite::Error>)
    ensures
        r matches Ok(t) ==> stored_usage(t.stats),
        r matches Ok(t) ==> {
            let h = final(db).history();
            let n = old(db).history().len() as int;
            &&& h.take(n) == old(db).history()
            &&& h[n].query && h[n].sql == GET_SETTING_SQL@ && h[n].args == seq![Param::Text(SETTING_TRIP_PAUSED_AT@)]
            &&& h.len() >= n + 4 && trip_read(h, h.len() - 4, t)
            &&& exists|paused_at: Option<String>, now: String|
                opt_view(paused_at) == setting_in(h[n].rows) && #[trigger] toggle_changes(
                    paused_at,
                    pauses_in(h[n + 1].rows),
                    now,
                ) == changes(h).skip(changes(old(db).history()).len() as int) && changes(h).take(
                    changes(old(db).history()).len() as int,
                ) == changes(old(db).history())
        },
{
    let ghost h0 = db.history();
    let paused_at = get_setting(db, SETTING_TRIP_PAUSED_AT)?;
    let ghost h1 = db.history();
    let ghost pa = paused_at;
    let ghost mut closed: Seq<(String, String)> = Seq::empty();
    let ghost mut stamp: String = vstd::pervasive::arbitrary();
    match paused_at {
        None => {
            let now = now_str();
            set_setting(db, SETTING_TRIP_PAUSED_AT, now.as_str())?;
            proof {
                stamp = now;
            }
        },
        Some(paused_at) => {
            let mut pauses = get_trip_pauses(db)?;
            let ghost h2 = db.history();
            let now = now_str();
            proof {
                closed = pauses@;
                stamp = now;
            }
            pauses.push((paused_at, now.clone()));
            assert(pauses@ == closed.push((pa->0, stamp)));
            let json = json_pairs(&pauses);
            set_setting(db, SETTING_TRIP_PAUSES, json.as_str())?;
            delete_setting(db, SETTING_TRIP_PAUSED_AT)?;
            proof {
                assert(db.history()[h0.len() as int + 1] == h2.last());
            }
        },
    }
    let ghost hw = db.history();
    proof {
        assert(changes(hw) =~= changes(h0) + toggle_changes(pa, closed, stamp));
        assert(hw[h0.len() as int] == h1.last());
        assert(hw.take(h0.len() as int) =~= h0);
    }
    let r = trip_stats(db);
    proof {
        if r is Ok {
            let h = db.history();
            let n = h0.len() as int;
            assert(h[n] == hw[n]);
            assert(h[n + 1] == hw[n + 1]);
            assert(h.take(n) =~= h0);
            assert(changes(h).skip(changes(h0).len() as int) =~= toggle_changes(pa, closed, stamp));
            assert(changes(h).take(changes(h0).len() as int) =~= changes(h0));
            if pa is Some {
                assert(closed == pauses_in(h[n + 1].rows));
            }
            assert(toggle_changes(pa, pauses_in(h[n + 1].rows), stamp) == toggle_changes(pa, closed, stamp));
        }
    }
    r
}

/// The writes that pause the trip meter at `now` (when `paused_at` is `None`), or resume it,
/// storing the closed pauses `closed` with `[paused_at, now)` appended.
pub open spec fn toggle_changes(paused_at: Option<String>, closed: Seq<(String, String)>, now: String) -> Seq<Sent> {
    match paused_at {
        None => seq![set_setting_write(SETTING_TRIP_PAUSED_AT@, now@)],
        Some(p) => seq![
            set_setting_write(SETTING_TRIP_PAUSES@, json_pair_list(closed.push((p, now)))),
            delete_setting_write(SETTING_TRIP_PAUSED_AT@),
        ],
    }
}

/// Resets the trip meter: it starts now and is no longer paused (messages and the cumulative
/// statistics are untouched).
pub fn reset_trip(db: &mut Db) -> (r: Result<TripStats, rusqlite::Error>)
    ensures
        r matches Ok(t) ==> stored_usage(t.stats),
        r matches Ok(t) ==> {
            let h = final(db).history();
            &&& h.len() >= old(db).history().len() + 7 && trip_read(h, h.len() - 4, t)
            &&& exists|now: Seq<char>|
                changes(h) == changes(old(db).history()) + #[trigger] reset_changes(now)
        },
{
    let now = now_str();
    set_setting(db, SETTING_TRIP_STARTED_AT, now.as_str())?;
    delete_setting(db, SETTING_TRIP_PAUSED_AT)?;
    delete_setting(db, SETTING_TRIP_PAUSES)?;
    assert(changes(db.history()) =~= changes(old(db).history()) + reset_changes(now@));
    trip_stats(db)
}

/// The writes that restart the trip meter at `now`: the new start, no current pause, no closed
/// pauses.
pub open spec fn reset_changes(now: Seq<char>) -> Seq<Sent> {
    seq![
        set_setting_write(SETTING_TRIP_STARTED_AT@, now),
        delete_setting_write(SETTING_TRIP_PAUSED_AT@),
        delete_setting_write(SETTING_TRIP_PAUSES@),
    ]
}


// ---------------------------------------------------------------------------
// Grouped statistics (by day, hour or model)
// ---------------------------------------------------------------------------

/// The usage columns of a grouped statistic.
pub const BUCKET_TOTALS: &'static str = "COALESCE(SUM(total_tokens),0), COALESCE(SUM(prompt_tokens),0), COALESCE(SUM(completion_tokens),0), COALESCE(SUM(cache_read_tokens),0), COALESCE(SUM(cache_creation_tokens),0), COUNT(*)";

/// The query grouping messages (filtered by `filter`) by the expression `key`, sorted by
/// `ordering`.
pub open spec fn bucket_sql(key: Seq<char>, filter: Seq<char>, ordering: Seq<char>) -> Seq<char> {
    "SELECT "@ + key + " AS k, "@ + BUCKET_TOTALS@ + " FROM messages "@ + filter
        + " GROUP BY k ORDER BY "@ + ordering
}

/// Builds [`bucket_sql`].
pub fn bucket_sql_text(key: &str, filter: &str, ordering: &str) -> (r: String)
    ensures
        r@ == bucket_sql(key@, filter@, ordering@),
{
    let mut sql = "SELECT ".to_owned();
    sql.append(key);
    sql.append(" AS k, ");
    sql.append(BUCKET_TOTALS);
    sql.append(" FROM messages ");
    sql.append(filter);
    sql.append(" GROUP BY k ORDER BY ");
    sql.append(ordering);
    sql
}

/// `b` is the group stored in `row` (key, then the usage columns).
pub open spec fn bucket_row(row: Seq<SqlValue>, b: StatsBucket) -> bool {
    &&& b.key@ == text_of(row[0])
    &&& b.total_tokens == int_of(row[1])
    &&& b.prompt_tokens == int_of(row[2])
    &&& b.completion_tokens == int_of(row[3])
    &&& b.cache_read_tokens == int_of(row[4])
    &&& b.cache_creation_tokens == int_of(row[5])
    &&& b.requests == int_of(row[6])
}

/// The group stored in `row`.
pub fn bucket_from_row(row: &Vec<SqlValue>) -> (b: StatsBucket)
    requires
        7 <= row@.len(),
    ensures
        bucket_row(row@, b),
{
    StatsBucket {
        key: text_at(row, 0),
        total_tokens: int_at(row, 1),
        prompt_tokens: int_at(row, 2),
        completion_tokens: int_at(row, 3),
        cache_read_tokens: int_at(row, 4),
        cache_creation_tokens: int_at(row, 5),
        requests: int_at(row, 6),
    }
}

/// Runs a grouped statistic (see [`bucket_sql`]) with the given parameters.
fn bucket_query(
    db: &mut Db,
    key: &str,
    filter: &str,
    ordering: &str,
    args: &[SqlArg],
) -> (r: Result<Vec<StatsBucket>, rusqlite::Error>)
    ensures
        final(db).dates() == old(db).dates(),
        changes(final(db).history()) == changes(old(db).history()),
        one_query(old(db).history(), final(db).history(), bucket_sql(key@, filter@, ordering@), params(args@)),
        r matches Ok(v) ==> buckets_in(final(db).history().last().rows, v@),
        r matches Ok(v) ==> forall|j: int| 0 <= j < v@.len() ==> stored_bucket(#[trigger] v@[j]),
{
    let mut kinds = Vec::new();
    kinds.push(ColumnKind::Text);
    int_kinds(&mut kinds, 6);
    assert(kinds@ =~= bucket_kind_seq());
    let sql = bucket_sql_text(key, filter, ordering);
    let rows = db.query(sql.as_str(), args, kinds.as_slice())?;
    let mut out: Vec<StatsBucket> = Vec::new();
    let mut i: usize = 0;
    while i < rows.len()
        invariant
            0 <= i <= rows@.len(),
            kinds@ == bucket_kind_seq(),
            forall|j: int| 0 <= j < rows@.len() ==> row_fits(#[trigger] rows@[j]@, kinds@),
            forall|j: int| 0 <= j < out@.len() ==> stored_bucket(#[trigger] out@[j]),
            out@.len() == i,
            forall|j: int| 0 <= j < i ==> bucket_row(rows@[j]@, #[trigger] out@[j]),
        decreases rows.len() - i,
    {
        assert(row_fits(rows@[i as int]@, kinds@));
        let b = bucket_from_row(&rows[i]);
        assert(bucket_row(rows@[i as int]@, b));
        out.push(b);
        i = i + 1;
    }
    assert(forall|j: int| 0 <= j < rows@.len() ==> #[trigger] rows_view(rows@)[j] == rows@[j]@);
    Ok(out)
}

/// `bs` are the groups stored in `rows`, one per row in order.
pub open spec fn buckets_in(rows: Seq<Seq<SqlValue>>, bs: Seq<StatsBucket>) -> bool {
    &&& bs.len() == rows.len()
    &&& forall|j: int| 0 <= j < bs.len() ==> bucket_row(rows[j], #[trigger] bs[j])
}

/// The order of the per-model statistic: most tokens first, then by model.
pub const MODEL_ORDER: &'static str = "COALESCE(SUM(total_tokens),0) DESC, k";

/// The parameters of a filter on an optional aggregator and a date, as plain values.
pub open spec fn aggregator_date_params(aggregator_id: Option<i64>, date: Seq<char>) -> Seq<Param> {
    match aggregator_id {
        Some(id) => seq![Param::Int(id), Param::Text(date)],
        None => seq![Param::Text(date)],
    }
}

/// The most days a date filter reaches back or forward (about 246,000 years: inside chrono's
/// calendar, which ends near year ±262,000, for any clock within 15,000 years of year 0).
pub const MAX_DAYS_BACK: i64 = 90000000;

/// The parameters of a filter on an optional aggregator and a date.
pub open spec fn aggregator_date_args(aggregator_id: Option<i64>, date: String) -> Seq<SqlArg> {
    match aggregator_id {
        Some(id) => seq![SqlArg::Int(id), SqlArg::Text(date)],
        None => seq![SqlArg::Text(date)],
    }
}

fn aggregator_date_args_of(aggregator_id: Option<i64>, date: String) -> (r: Vec<SqlArg>)
    ensures
        r@ == aggregator_date_args(aggregator_id, date),
{
    let mut args = Vec::new();
    if let Some(id) = aggregator_id {
        args.push(SqlArg::Int(id));
    }
    args.push(SqlArg::Text(date));
    proof {
        assert(args@ =~= aggregator_date_args(aggregator_id, date));
    }
    args
}

/// Usage per day over the last `days` days (today included), oldest first; keys are
/// `YYYY-MM-DD` in local time.
pub fn stats_daily(db: &mut Db, aggregator_id: Option<i64>, days: i64) -> (r: Result<
    Vec<StatsBucket>,
    rusqlite::Error,
>)
    requires
        1 - MAX_DAYS_BACK <= days <= MAX_DAYS_BACK + 1,
    ensures
        changes(final(db).history()) == changes(old(db).history()),
        final(db).history() == old(db).history().push(final(db).history().last()),
        final(db).dates() == old(db).dates().push(((days - 1) as i64, final(db).dates().last().1)),
        r matches Ok(v) ==> daily_read(final(db).history().last(), aggregator_id, final(db).dates().last().1, v@),
        r matches Ok(v) ==> forall|j: int| 0 <= j < v@.len() ==> stored_bucket(#[trigger] v@[j]),
{
    let cutoff = db.local_date(days - 1);
    let filter: &str = if aggregator_id.is_some() {
        DAILY_AGGREGATOR_FILTER
    } else {
        DAILY_FILTER
    };
    let args = aggregator_date_args_of(aggregator_id, cutoff);
    assert(params(args@) =~= aggregator_date_params(aggregator_id, cutoff@));
    bucket_query(db, DAY_KEY, filter, DAY_ORDER, args.as_slice())
}

/// `q` is the per-day query (of one aggregator or of all) from the date `cutoff` on, and `v`
/// the days it read.
pub open spec fn daily_read(q: Sent, aggregator_id: Option<i64>, cutoff: Seq<char>, v: Seq<StatsBucket>) -> bool {
    &&& q.query
    &&& q.sql == bucket_sql(DAY_KEY@, daily_filter(aggregator_id is Some), DAY_ORDER@)
    &&& q.args == aggregator_date_params(aggregator_id, cutoff)
    &&& buckets_in(q.rows, v)
}

/// The parameters of the per-model statistic, as plain values.
pub open spec fn model_params(aggregator_id: Option<i64>, cutoff: Option<Seq<char>>) -> Seq<Param> {
    (match aggregator_id {
        Some(id) => seq![Param::Int(id)],
        None => Seq::empty(),
    }) + (match cutoff {
        Some(c) => seq![Param::Text(c)],
        None => Seq::empty(),
    })
}

/// `q` is the per-model query (of one aggregator or of all; from the date `cutoff` on when
/// there is one) and `v` the models it read.
pub open spec fn model_read(q: Sent, aggregator_id: Option<i64>, cutoff: Option<Seq<char>>, v: Seq<StatsBucket>) -> bool {
    &&& q.query
    &&& q.sql == bucket_sql(
        "model"@,
        where_clause(model_conditions(aggregator_id is Some, cutoff is Some)),
        MODEL_ORDER@,
    )
    &&& q.args == model_params(aggregator_id, cutoff)
    &&& buckets_in(q.rows, v)
}

/// The group of the per-day statistic.
pub const DAY_KEY: &'static str = "substr(created_at,1,10)";

/// The order of the per-day statistic.
pub const DAY_ORDER: &'static str = "k";

/// The per-day filter on one aggregator and a first date.
pub const DAILY_AGGREGATOR_FILTER: &'static str = "WHERE aggregator_id=?1 AND substr(created_at,1,10)>=?2";

/// The per-day filter on a first date.
pub const DAILY_FILTER: &'static str = "WHERE substr(created_at,1,10)>=?1";

/// The per-day filter, with or without an aggregator.
pub open spec fn daily_filter(by_aggregator: bool) -> Seq<char> {
    if by_aggregator { DAILY_AGGREGATOR_FILTER@ } else { DAILY_FILTER@ }
}

/// Usage per hour (`00`..`23`) of the local date `date` (`YYYY-MM-DD`), by hour.
pub fn stats_hourly(db: &mut Db, aggregator_id: Option<i64>, date: &str) -> (r: Result<
    Vec<StatsBucket>,
    rusqlite::Error,
>)
    ensures
        changes(final(db).history()) == changes(old(db).history()),
        one_query(
            old(db).history(),
            final(db).history(),
            bucket_sql(HOUR_KEY@, hourly_filter(aggregator_id is Some), HOUR_ORDER@),
            aggregator_date_params(aggregator_id, date@),
        ),
        r matches Ok(v) ==> buckets_in(final(db).history().last().rows, v@),
        r matches Ok(v) ==> forall|j: int| 0 <= j < v@.len() ==> stored_bucket(#[trigger] v@[j]),
{
    let filter: &str = if aggregator_id.is_some() {
        HOURLY_AGGREGATOR_FILTER
    } else {
        HOURLY_FILTER
    };
    let args = aggregator_date_args_of(aggregator_id, date.to_owned());
    assert(params(args@) =~= aggregator_date_params(aggregator_id, date@));
    bucket_query(db, HOUR_KEY, filter, HOUR_ORDER, args.as_slice())
}

/// The group of the per-hour statistic.
pub const HOUR_KEY: &'static str = "substr(created_at,12,2)";

/// The order of the per-hour statistic.
pub const HOUR_ORDER: &'static str = "CAST(k AS INTEGER)";

/// The per-hour filter on one aggregator and a date.
pub const HOURLY_AGGREGATOR_FILTER: &'static str = "WHERE aggregator_id=?1 AND substr(created_at,1,10)=?2";

/// The per-hour filter on a date.
pub const HOURLY_FILTER: &'static str = "WHERE substr(created_at,1,10)=?1";

/// The per-hour filter, with or without an aggregator.
pub open spec fn hourly_filter(by_aggregator: bool) -> Seq<char> {
    if by_aggregator { HOURLY_AGGREGATOR_FILTER@ } else { HOURLY_FILTER@ }
}

/// The conditions of the per-model statistic: optionally one aggregator, optionally days from a
/// cutoff on.
pub open spec fn model_conditions(by_aggregator: bool, by_date: bool) -> Seq<Seq<char>> {
    (if by_aggregator { seq!["aggregator_id=?"@] } else { Seq::empty() }) + (if by_date {
        seq!["substr(created_at,1,10)>=?"@]
    } else {
        Seq::empty()
    })
}

/// The parameters of the per-model statistic's conditions, in order.
pub open spec fn model_args(aggregator_id: Option<i64>, cutoff: Option<String>) -> Seq<SqlArg> {
    (match aggregator_id {
        Some(id) => seq![SqlArg::Int(id)],
        None => Seq::empty(),
    }) + (match cutoff {
        Some(c) => seq![SqlArg::Text(c)],
        None => Seq::empty(),
    })
}

/// The per-model statistic's filter and its parameters.
pub fn model_filter(aggregator_id: Option<i64>, cutoff: Option<String>) -> (r: (String, Vec<SqlArg>))
    ensures
        r.0@ == where_clause(model_conditions(aggregator_id is Some, cutoff is Some)),
        r.1@ == model_args(aggregator_id, cutoff),
{
    let mut conds: Vec<String> = Vec::new();
    let mut args: Vec<SqlArg> = Vec::new();
    if let Some(id) = aggregator_id {
        conds.push("aggregator_id=?".to_owned());
        args.push(SqlArg::Int(id));
    }
    let ghost conds0 = conds@;
    let ghost cutoff0 = cutoff;
    if let Some(c) = cutoff {
        conds.push("substr(created_at,1,10)>=?".to_owned());
        args.push(SqlArg::Text(c));
    }
    proof {
        assert(texts(conds@) =~= model_conditions(aggregator_id is Some, cutoff0 is Some));
        assert(args@ =~= model_args(aggregator_id, cutoff0));
    }
    (where_of(&conds), args)
}

/// Usage per model, largest total first (ties by model name); over the last `days` days
/// (today included) when given.
pub fn stats_by_model(db: &mut Db, aggregator_id: Option<i64>, days: Option<i64>) -> (r:
    Result<Vec<StatsBucket>, rusqlite::Error>)
    requires
        days matches Some(d) ==> 1 - MAX_DAYS_BACK <= d <= MAX_DAYS_BACK + 1,
    ensures
        changes(final(db).history()) == changes(old(db).history()),
        final(db).history() == old(db).history().push(final(db).history().last()),
        match days {
            Some(d) => final(db).dates() == old(db).dates().push(((d - 1) as i64, final(db).dates().last().1)),
            None => final(db).dates() == old(db).dates(),
        },
        r matches Ok(v) ==> model_read(
            final(db).history().last(),
            aggregator_id,
            match days {
                Some(_) => Some(final(db).dates().last().1),
                None => None,
            },
            v@,
        ),
        r matches Ok(v) ==> forall|j: int| 0 <= j < v@.len() ==> stored_bucket(#[trigger] v@[j]),
{
    let cutoff = match days {
        Some(d) => Some(db.local_date(d - 1)),
        None => None,
    };
    let ghost c = cutoff;
    let (filter, args) = model_filter(aggregator_id, cutoff);
    assert(params(args@) =~= model_params(aggregator_id, opt_view(c)));
    bucket_query(db, "model", filter.as_str(), MODEL_ORDER, args.as_slice())
}


// ---------------------------------------------------------------------------
// Messages
// ---------------------------------------------------------------------------

/// An optional integer as a parameter (NULL for `None`).
pub open spec fn opt_int_arg(v: Option<i64>) -> SqlArg {
    match v {
        Some(x) => SqlArg::Int(x),
        None => SqlArg::Null,
    }
}

fn opt_int_arg_of(v: Option<i64>) -> (r: SqlArg)
    ensures
        r == opt_int_arg(v),
{
    match v {
        Some(x) => SqlArg::Int(x),
        None => SqlArg::Null,
    }
}

/// The parameters storing `m` at the time `created_at`, in column order.
pub open spec fn message_args(m: NewMessage, created_at: String) -> Seq<SqlArg> {
    seq![
        SqlArg::Int(m.aggregator_id),
        opt_int_arg(m.plan_id),
        SqlArg::Text(m.method),
        SqlArg::Text(m.path),
        SqlArg::Int(m.status),
        SqlArg::Text(m.request_body),
        SqlArg::Text(m.response_body),
        SqlArg::Text(m.model),
        SqlArg::Int(m.prompt_tokens),
        SqlArg::Int(m.completion_tokens),
        SqlArg::Int(m.cache_read_tokens),
        SqlArg::Int(m.cache_creation_tokens),
        SqlArg::Int(m.total_tokens),
        SqlArg::Int(m.duration_ms),
        SqlArg::Text(created_at),
    ]
}

/// Builds [`message_args`].
pub fn message_args_of(m: &NewMessage, created_at: String) -> (r: Vec<SqlArg>)
    ensures
        r@ == message_args(*m, created_at),
{
    let mut args = Vec::new();
    args.push(SqlArg::Int(m.aggregator_id));
    args.push(opt_int_arg_of(m.plan_id));
    args.push(SqlArg::Text(m.method.clone()));
    args.push(SqlArg::Text(m.path.clone()));
    args.push(SqlArg::Int(m.status));
    args.push(SqlArg::Text(m.request_body.clone()));
    args.push(SqlArg::Text(m.response_body.clone()));
    args.push(SqlArg::Text(m.model.clone()));
    args.push(SqlArg::Int(m.prompt_tokens));
    args.push(SqlArg::Int(m.completion_tokens));
    args.push(SqlArg::Int(m.cache_read_tokens));
    args.push(SqlArg::Int(m.cache_creation_tokens));
    args.push(SqlArg::Int(m.total_tokens));
    args.push(SqlArg::Int(m.duration_ms));
    args.push(SqlArg::Text(created_at));
    proof {
        assert(args@ =~= message_args(*m, created_at));
    }
    args
}

/// Stores a message.
pub const INSERT_MESSAGE_SQL: &'static str = "INSERT INTO messages (aggregator_id, plan_id, method, path, status, request_body,
                               response_body, model, prompt_tokens, completion_tokens,
                               cache_read_tokens, cache_creation_tokens,
                               total_tokens, duration_ms, created_at)
         VALUES (?1,?2,?3,?4,?5,?6,?7,?8,?9,?10,?11,?12,?13,?14,?15)";

/// The write that stores `m` stamped `created_at`.
pub open spec fn insert_message_write(m: NewMessage, created_at: String) -> Sent {
    change(INSERT_MESSAGE_SQL@, params(message_args(m, created_at)))
}

/// Stores a message, stamped with the current local time; its id.
pub fn insert_message(db: &mut Db, msg: &NewMessage) -> (r: Result<i64, rusqlite::Error>)
    ensures
        exists|created_at: String|
            final(db).history() == old(db).history().push(#[trigger] insert_message_write(*msg, created_at)),
{
    let created_at = now_str();
    let args = message_args_of(msg, created_at);
    let r = db.run(INSERT_MESSAGE_SQL, args.as_slice());
    assert(final(db).history() == old(db).history().push(insert_message_write(*msg, created_at)));
    r?;
    Ok(db.last_rowid())
}

/// `m` is the message stored in `row` (the columns of the table in order, then the names of
/// its aggregator and plan).
pub open spec fn message_row(row: Seq<SqlValue>, m: MessageRow) -> bool {
    &&& m.id == int_of(row[0])
    &&& m.aggregator_id == int_of(row[1])
    &&& m.plan_id == opt_int_of(row[2])
    &&& m.method@ == text_of(row[3])
    &&& m.path@ == text_of(row[4])
    &&& m.status == int_of(row[5])
    &&& m.request_body@ == text_of(row[6])
    &&& m.response_body@ == text_of(row[7])
    &&& m.model@ == text_of(row[8])
    &&& m.prompt_tokens == int_of(row[9])
    &&& m.completion_tokens == int_of(row[10])
    &&& m.cache_read_tokens == int_of(row[11])
    &&& m.cache_creation_tokens == int_of(row[12])
    &&& m.total_tokens == int_of(row[13])
    &&& m.duration_ms == int_of(row[14])
    &&& m.created_at@ == text_of(row[15])
    &&& opt_view(m.aggregator_name) == opt_text_of(row[16])
    &&& opt_view(m.plan_name) == opt_text_of(row[17])
}

/// The message stored in `row`.
pub fn message_from_row(row: &Vec<SqlValue>) -> (m: MessageRow)
    requires
        18 <= row@.len(),
    ensures
        message_row(row@, m),
{
    MessageRow {
        id: int_at(row, 0),
        aggregator_id: int_at(row, 1),
        plan_id: opt_int_at(row, 2),
        method: text_at(row, 3),
        path: text_at(row, 4),
        status: int_at(row, 5),
        request_body: text_at(row, 6),
        response_body: text_at(row, 7),
        model: text_at(row, 8),
        prompt_tokens: int_at(row, 9),
        completion_tokens: int_at(row, 10),
        cache_read_tokens: int_at(row, 11),
        cache_creation_tokens: int_at(row, 12),
        total_tokens: int_at(row, 13),
        duration_ms: int_at(row, 14),
        created_at: text_at(row, 15),
        aggregator_name: opt_text_at(row, 16),
        plan_name: opt_text_at(row, 17),
    }
}

/// The message with the given id, with the names of its aggregator and plan (`None` for an
/// aggregator or plan deleted since).
pub fn get_message(db: &mut Db, id: i64) -> (r: Result<Option<MessageRow>, rusqlite::Error>)
    ensures
        changes(final(db).history()) == changes(old(db).history()),
        one_query(old(db).history(), final(db).history(), GET_MESSAGE_SQL@, seq![Param::Int(id)]),
        r matches Ok(None) ==> final(db).history().last().rows.len() == 0,
        r matches Ok(Some(m)) ==> final(db).history().last().rows.len() > 0 && message_row(
            final(db).history().last().rows[0],
            m,
        ),
        r matches Ok(Some(m)) ==> stored_message(m),
{
    let mut kinds = Vec::new();
    int_kinds(&mut kinds, 2);
    kinds.push(ColumnKind::OptInt);
    kinds.push(ColumnKind::Text);
    kinds.push(ColumnKind::Text);
    kinds.push(ColumnKind::Int);
    kinds.push(ColumnKind::Text);
    kinds.push(ColumnKind::Text);
    kinds.push(ColumnKind::Text);
    int_kinds(&mut kinds, 6);
    kinds.push(ColumnKind::Text);
    kinds.push(ColumnKind::OptText);
    kinds.push(ColumnKind::OptText);
    assert(kinds@ =~= message_kind_seq());
    let mut args = Vec::new();
    args.push(SqlArg::Int(id));
    assert(params(args@) =~= seq![Param::Int(id)]);
    let rows = db.query(GET_MESSAGE_SQL, args.as_slice(), kinds.as_slice())?;
    if rows.len() == 0 {
        return Ok(None);
    }
    assert(row_fits(rows@[0]@, kinds@));
    let m = message_from_row(&rows[0]);
    assert(message_row(rows@[0]@, m));
    assert(rows_view(rows@)[0] == rows@[0]@);
    Ok(Some(m))
}

/// Reads one message with the names of its aggregator and plan.
pub const GET_MESSAGE_SQL: &'static str = "SELECT m.id, m.aggregator_id, m.plan_id, m.method, m.path, m.status,
                m.request_body, m.response_body, m.model, m.prompt_tokens,
                m.completion_tokens, m.cache_read_tokens, m.cache_creation_tokens,
                m.total_tokens, m.duration_ms, m.created_at, a.name, p.name
         FROM messages m
         LEFT JOIN aggregators a ON a.id = m.aggregator_id
         LEFT JOIN coding_plans p ON p.id = m.plan_id
         WHERE m.id=?1";

/// `m` is the message summary stored in `row` (as [`message_row`] without the two bodies).
pub open spec fn summary_row(row: Seq<SqlValue>, m: MessageSummary) -> bool {
    &&& m.id == int_of(row[0])
    &&& m.aggregator_id == int_of(row[1])
    &&& m.plan_id == opt_int_of(row[2])
    &&& m.method@ == text_of(row[3])
    &&& m.path@ == text_of(row[4])
    &&& m.status == int_of(row[5])
    &&& m.model@ == text_of(row[6])
    &&& m.prompt_tokens == int_of(row[7])
    &&& m.completion_tokens == int_of(row[8])
    &&& m.cache_read_tokens == int_of(row[9])
    &&& m.cache_creation_tokens == int_of(row[10])
    &&& m.total_tokens == int_of(row[11])
    &&& m.duration_ms == int_of(row[12])
    &&& m.created_at@ == text_of(row[13])
    &&& opt_view(m.aggregator_name) == opt_text_of(row[14])
    &&& opt_view(m.plan_name) == opt_text_of(row[15])
}

/// The message summary stored in `row`.
pub fn summary_from_row(row: &Vec<SqlValue>) -> (m: MessageSummary)
    requires
        16 <= row@.len(),
    ensures
        summary_row(row@, m),
{
    MessageSummary {
        id: int_at(row, 0),
        aggregator_id: int_at(row, 1),
        plan_id: opt_int_at(row, 2),
        method: text_at(row, 3),
        path: text_at(row, 4),
        status: int_at(row, 5),
        model: text_at(row, 6),
        prompt_tokens: int_at(row, 7),
        completion_tokens: int_at(row, 8),
        cache_read_tokens: int_at(row, 9),
        cache_creation_tokens: int_at(row, 10),
        total_tokens: int_at(row, 11),
        duration_ms: int_at(row, 12),
        created_at: text_at(row, 13),
        aggregator_name: opt_text_at(row, 14),
        plan_name: opt_text_at(row, 15),
    }
}

/// One page of messages (newest first, without their bodies), optionally of one aggregator,
/// and the number of messages in all pages.
pub fn list_messages(db: &mut Db, aggregator_id: Option<i64>, limit: i64, offset: i64) -> (r:
    Result<(i64, Vec<MessageSummary>), rusqlite::Error>)
    ensures
        changes(final(db).history()) == changes(old(db).history()),
        r matches Ok((total, items)) ==> final(db).history().take(old(db).history().len() as int)
            == old(db).history() && page_read(
            final(db).history(),
            old(db).history().len() as int,
            aggregator_id,
            limit,
            offset,
            total,
            items@,
        ),
        r matches Ok((_, items)) ==> forall|j: int| 0 <= j < items@.len() ==> stored_summary(#[trigger] items@[j]),
{
    let ghost h0 = db.history();
    let mut count_kinds = Vec::new();
    count_kinds.push(ColumnKind::Int);
    let mut count_args = Vec::new();
    let count_text: &str = match aggregator_id {
        Some(id) => {
            count_args.push(SqlArg::Int(id));
            COUNT_AGGREGATOR_MESSAGES_SQL
        },
        None => COUNT_MESSAGES_SQL,
    };
    assert(params(count_args@) =~= match aggregator_id {
        Some(id) => seq![Param::Int(id)],
        None => Seq::<Param>::empty(),
    });
    let counted = db.query(count_text, count_args.as_slice(), count_kinds.as_slice())?;
    let ghost h1 = db.history();
    let total: i64 = if counted.len() == 0 {
        0
    } else {
        assert(row_fits(counted@[0]@, count_kinds@));
        assert(rows_view(counted@)[0] == counted@[0]@);
        int_at(&counted[0], 0)
    };
    let list_sql: &str = if aggregator_id.is_some() {
        PAGE_AGGREGATOR_MESSAGES_SQL
    } else {
        PAGE_MESSAGES_SQL
    };
    let mut kinds = Vec::new();
    int_kinds(&mut kinds, 2);
    kinds.push(ColumnKind::OptInt);
    kinds.push(ColumnKind::Text);
    kinds.push(ColumnKind::Text);
    kinds.push(ColumnKind::Int);
    kinds.push(ColumnKind::Text);
    int_kinds(&mut kinds, 6);
    kinds.push(ColumnKind::Text);
    kinds.push(ColumnKind::OptText);
    kinds.push(ColumnKind::OptText);
    assert(kinds@ =~= summary_kind_seq());
    let mut args = Vec::new();
    args.push(opt_int_arg_of(aggregator_id));
    args.push(SqlArg::Int(limit));
    args.push(SqlArg::Int(offset));
    let rows = db.query(list_sql, args.as_slice(), kinds.as_slice())?;
    let mut items: Vec<MessageSummary> = Vec::new();
    let mut i: usize = 0;
    while i < rows.len()
        invariant
            0 <= i <= rows@.len(),
            kinds@ == summary_kind_seq(),
            forall|j: int| 0 <= j < rows@.len() ==> row_fits(#[trigger] rows@[j]@, kinds@),
            items@.len() == i,
            forall|j: int| 0 <= j < i ==> summary_row(rows@[j]@, #[trigger] items@[j]),
            forall|j: int| 0 <= j < i ==> stored_summary(#[trigger] items@[j]),
        decreases rows.len() - i,
    {
        assert(row_fits(rows@[i as int]@, kinds@));
        items.push(summary_from_row(&rows[i]));
        assert(summary_row(rows@[i as int]@, items@[i as int]));
        i = i + 1;
    }
    proof {
        assert(forall|j: int| 0 <= j < rows@.len() ==> #[trigger] rows_view(rows@)[j] == rows@[j]@);
        let h = db.history();
        let n = h0.len() as int;
        assert(h =~= h0.push(h1.last()).push(h.last()));
        assert(h.take(n) =~= h0);
        assert(h[n] == h1.last());
        assert(h[n + 1] == h.last());
        assert(summaries_in(h[n + 1].rows, items@));
        assert(h[n + 1].args == params(seq![opt_int_arg(aggregator_id), SqlArg::Int(limit), SqlArg::Int(offset)]));
    }
    Ok((total, items))
}

/// `h[n..n + 2]` count the messages (of one aggregator or of all), giving `total`, then read
/// the page of `limit` summaries after `offset`, giving `items`.
pub open spec fn page_read(h: Seq<Sent>, n: int, aggregator_id: Option<i64>, limit: i64, offset: i64, total: i64, items: Seq<MessageSummary>) -> bool {
    &&& h.len() == n + 2
    &&& h[n].query && h[n].sql == count_sql(aggregator_id is Some)
    &&& h[n].args == match aggregator_id {
        Some(id) => seq![Param::Int(id)],
        None => Seq::empty(),
    }
    &&& total == (if h[n].rows.len() == 0 { 0 } else { int_of(h[n].rows[0][0]) })
    &&& h[n + 1].query && h[n + 1].sql == page_sql(aggregator_id is Some)
    &&& h[n + 1].args == params(seq![opt_int_arg(aggregator_id), SqlArg::Int(limit), SqlArg::Int(offset)])
    &&& summaries_in(h[n + 1].rows, items)
}

/// Counts one aggregator's messages.
pub const COUNT_AGGREGATOR_MESSAGES_SQL: &'static str = "SELECT COUNT(*) FROM messages WHERE aggregator_id=?1";

/// Counts every message.
pub const COUNT_MESSAGES_SQL: &'static str = "SELECT COUNT(*) FROM messages";

/// Reads a page of one aggregator's message summaries, newest first.
pub const PAGE_AGGREGATOR_MESSAGES_SQL: &'static str = "SELECT m.id, m.aggregator_id, m.plan_id, m.method, m.path, m.status,
                m.model, m.prompt_tokens, m.completion_tokens,
                m.cache_read_tokens, m.cache_creation_tokens, m.total_tokens,
                m.duration_ms, m.created_at, a.name, p.name
         FROM messages m
         LEFT JOIN aggregators a ON a.id = m.aggregator_id
         LEFT JOIN coding_plans p ON p.id = m.plan_id
         WHERE m.aggregator_id=?1 ORDER BY m.id DESC LIMIT ?2 OFFSET ?3";

/// Reads a page of all message summaries, newest first.
pub const PAGE_MESSAGES_SQL: &'static str = "SELECT m.id, m.aggregator_id, m.plan_id, m.method, m.path, m.status,
                m.model, m.prompt_tokens, m.completion_tokens,
                m.cache_read_tokens, m.cache_creation_tokens, m.total_tokens,
                m.duration_ms, m.created_at, a.name, p.name
         FROM messages m
         LEFT JOIN aggregators a ON a.id = m.aggregator_id
         LEFT JOIN coding_plans p ON p.id = m.plan_id
         ORDER BY m.id DESC LIMIT ?2 OFFSET ?3";

/// The count of messages, of one aggregator or of all.
pub open spec fn count_sql(by_aggregator: bool) -> Seq<char> {
    if by_aggregator { COUNT_AGGREGATOR_MESSAGES_SQL@ } else { COUNT_MESSAGES_SQL@ }
}

/// The page of message summaries, of one aggregator or of all.
pub open spec fn page_sql(by_aggregator: bool) -> Seq<char> {
    if by_aggregator { PAGE_AGGREGATOR_MESSAGES_SQL@ } else { PAGE_MESSAGES_SQL@ }
}

/// `items` are the message summaries stored in `rows`, one per row in order.
pub open spec fn summaries_in(rows: Seq<Seq<SqlValue>>, items: Seq<MessageSummary>) -> bool {
    &&& items.len() == rows.len()
    &&& forall|j: int| 0 <= j < items.len() ==> summary_row(rows[j], #[trigger] items[j])
}

/// Removes one aggregator's messages.
pub const CLEAR_AGGREGATOR_MESSAGES_SQL: &'static str = "DELETE FROM messages WHERE aggregator_id=?1";

/// Removes every message.
pub const CLEAR_ALL_MESSAGES_SQL: &'static str = "DELETE FROM messages";

/// Deletes the messages of one aggregator, or all messages; the number deleted.
pub fn clear_messages(db: &mut Db, aggregator_id: Option<i64>) -> (r: Result<
    usize,
    rusqlite::Error,
>)
    ensures
        final(db).history() == old(db).history().push(
            match aggregator_id {
                Some(id) => change(CLEAR_AGGREGATOR_MESSAGES_SQL@, seq![Param::Int(id)]),
                None => change(CLEAR_ALL_MESSAGES_SQL@, Seq::empty()),
            },
        ),
{
    match aggregator_id {
        Some(id) => {
            let mut args = Vec::new();
            args.push(SqlArg::Int(id));
            assert(params(args@) =~= seq![Param::Int(id)]);
            db.run(CLEAR_AGGREGATOR_MESSAGES_SQL, args.as_slice())
        },
        None => {
            let args: Vec<SqlArg> = Vec::new();
            assert(params(args@) =~= Seq::<Param>::empty());
            db.run(CLEAR_ALL_MESSAGES_SQL, args.as_slice())
        },
    }
}

} // verus!
