use vstd::prelude::*;

use crate::clock::local_date_days_ago;

verus! {

#[verifier::external_type_specification]
#[verifier::external_body]
pub struct ExConnection(rusqlite::Connection);

#[verifier::external_type_specification]
#[verifier::external_body]
pub struct ExSqlError(rusqlite::Error);

#[verifier::external_type_specification]
#[verifier::external_body]
pub struct ExRow<'stmt>(rusqlite::Row<'stmt>);

/// A bound SQL parameter.
pub enum SqlArg {
    Null,
    Int(i64),
    Text(String),
}

/// A column value read back.
pub enum SqlValue {
    Null,
    Int(i64),
    Text(String),
}

/// The type a query expects of a column (reading another type is an error, as
/// `rusqlite::Row::get` reports it).
pub enum ColumnKind {
    Int,
    Text,
    OptInt,
    OptText,
}

/// `v` has the shape `kind` promises.
pub open spec fn value_fits(v: SqlValue, kind: ColumnKind) -> bool {
    match kind {
        ColumnKind::Int => v is Int,
        ColumnKind::Text => v is Text,
        ColumnKind::OptInt => v is Int || v is Null,
        ColumnKind::OptText => v is Text || v is Null,
    }
}

/// `row` has one value of the promised shape per column kind.
pub open spec fn row_fits(row: Seq<SqlValue>, kinds: Seq<ColumnKind>) -> bool {
    &&& row.len() == kinds.len()
    &&& forall|i: int| 0 <= i < row.len() ==> value_fits(#[trigger] row[i], kinds[i])
}

/// `rusqlite::Connection::open`. Trusted: no claim on the outcome, which depends on the file
/// system.
#[verifier::external_body]
fn open_connection(path: &str) -> (r: Result<rusqlite::Connection, rusqlite::Error>) {
    rusqlite::Connection::open(path)
}

/// `rusqlite::Connection::execute_batch`. Trusted: no claim on the outcome.
#[verifier::external_body]
fn execute_batch(conn: &rusqlite::Connection, sql: &str) -> (r: Result<(), rusqlite::Error>) {
    conn.execute_batch(sql)
}

/// `rusqlite::Connection::execute` with positional parameters. Trusted: `Ok` carries the
/// number of changed rows; no claim on which outcome comes.
#[verifier::external_body]
fn execute(conn: &rusqlite::Connection, sql: &str, args: &[SqlArg]) -> (r: Result<
    usize,
    rusqlite::Error,
>) {
    let values = args.iter().map(|a| match a {
        SqlArg::Null => rusqlite::types::Value::Null,
        SqlArg::Int(i) => rusqlite::types::Value::Integer(*i),
        SqlArg::Text(s) => rusqlite::types::Value::Text(s.clone()),
    });
    conn.execute(sql, rusqlite::params_from_iter(values))
}

/// `rusqlite::Connection::last_insert_rowid`. Trusted: no claim on the value.
#[verifier::external_body]
fn last_insert_rowid(conn: &rusqlite::Connection) -> (r: i64) {
    conn.last_insert_rowid()
}

/// `rusqlite::Connection::prepare` and `Statement::query_map`, collecting every row as read
/// by [`read_row`] with `kinds`. Trusted: an `Ok` holds rows produced by `read_row`, each
/// shaped as `kinds` says; no claim on which rows or which outcome comes.
#[verifier::external_body]
fn query_rows(
    conn: &rusqlite::Connection,
    sql: &str,
    args: &[SqlArg],
    kinds: &[ColumnKind],
) -> (r: Result<Vec<Vec<SqlValue>>, rusqlite::Error>)
    ensures
        r matches Ok(rows) ==> forall|i: int|
            0 <= i < rows@.len() ==> row_fits(#[trigger] rows@[i]@, kinds@),
{
    let values = args.iter().map(|a| match a {
        SqlArg::Null => rusqlite::types::Value::Null,
        SqlArg::Int(i) => rusqlite::types::Value::Integer(*i),
        SqlArg::Text(s) => rusqlite::types::Value::Text(s.clone()),
    });
    let mut stmt = conn.prepare(sql)?;
    let rows = stmt.query_map(rusqlite::params_from_iter(values), |row| read_row(row, kinds))?;
    rows.collect()
}

/// `rusqlite::Row::get::<_, i64>`. Trusted: no claim on the value.
#[verifier::external_body]
fn column_int(row: &rusqlite::Row<'_>, i: usize) -> (r: Result<i64, rusqlite::Error>) {
    row.get::<usize, i64>(i)
}

/// `rusqlite::Row::get::<_, String>`. Trusted: no claim on the value.
#[verifier::external_body]
fn column_text(row: &rusqlite::Row<'_>, i: usize) -> (r: Result<String, rusqlite::Error>) {
    row.get::<usize, String>(i)
}

/// `rusqlite::Row::get::<_, Option<i64>>`. Trusted: no claim on the value.
#[verifier::external_body]
fn column_opt_int(row: &rusqlite::Row<'_>, i: usize) -> (r: Result<Option<i64>, rusqlite::Error>) {
    row.get::<usize, Option<i64>>(i)
}

/// `rusqlite::Row::get::<_, Option<String>>`. Trusted: no claim on the value.
#[verifier::external_body]
fn column_opt_text(row: &rusqlite::Row<'_>, i: usize) -> (r: Result<
    Option<String>,
    rusqlite::Error,
>) {
    row.get::<usize, Option<String>>(i)
}

/// Reads the columns of `row` with the given kinds: one value of the promised shape per kind;
/// a column that does not have its shape is an error (reading no column never fails).
pub fn read_row(row: &rusqlite::Row<'_>, kinds: &[ColumnKind]) -> (r: Result<
    Vec<SqlValue>,
    rusqlite::Error,
>)
    ensures
        r matches Ok(v) ==> row_fits(v@, kinds@),
        kinds@.len() == 0 ==> (r matches Ok(v) && v@.len() == 0),
{
    let mut out: Vec<SqlValue> = Vec::new();
    let mut i: usize = 0;
    while i < kinds.len()
        invariant
            0 <= i <= kinds@.len(),
            out@.len() == i,
            forall|j: int| 0 <= j < i ==> value_fits(#[trigger] out@[j], kinds@[j]),
        decreases kinds.len() - i,
    {
        let v = match kinds[i] {
            ColumnKind::Int => SqlValue::Int(column_int(row, i)?),
            ColumnKind::Text => SqlValue::Text(column_text(row, i)?),
            ColumnKind::OptInt => match column_opt_int(row, i)? {
                Some(x) => SqlValue::Int(x),
                None => SqlValue::Null,
            },
            ColumnKind::OptText => match column_opt_text(row, i)? {
                Some(x) => SqlValue::Text(x),
                None => SqlValue::Null,
            },
        };
        out.push(v);
        i = i + 1;
    }
    Ok(out)
}

/// A bound parameter as plain values.
pub enum Param {
    Null,
    Int(i64),
    Text(Seq<char>),
}

/// The plain value of a parameter.
pub open spec fn param(a: SqlArg) -> Param {
    match a {
        SqlArg::Null => Param::Null,
        SqlArg::Int(i) => Param::Int(i),
        SqlArg::Text(t) => Param::Text(t@),
    }
}

/// The plain values of parameters.
pub open spec fn params(args: Seq<SqlArg>) -> Seq<Param> {
    args.map_values(|a: SqlArg| param(a))
}

/// A statement sent to SQLite: its text, its parameters, whether it is a query, and the rows
/// it gave back (none for a statement that is not a query, or one that failed).
pub struct Sent {
    pub sql: Seq<char>,
    pub args: Seq<Param>,
    pub query: bool,
    pub rows: Seq<Seq<SqlValue>>,
}

/// A statement that changes the database (it is not a query).
pub open spec fn change(sql: Seq<char>, args: Seq<Param>) -> Sent {
    Sent { sql, args, query: false, rows: Seq::empty() }
}

/// The statements of `h` that are not queries, in order.
pub open spec fn changes(h: Seq<Sent>) -> Seq<Sent>
    decreases h.len(),
{
    if h.len() == 0 {
        Seq::empty()
    } else if h.last().query {
        changes(h.drop_last())
    } else {
        changes(h.drop_last()).push(h.last())
    }
}

/// The changes of a history followed by more statements are the changes of each part.
pub proof fn lemma_changes_append(a: Seq<Sent>, b: Seq<Sent>)
    ensures
        changes(a + b) == changes(a) + changes(b),
    decreases b.len(),
{
    if b.len() == 0 {
        assert(a + b =~= a);
        assert(changes(a) + changes(b) =~= changes(a));
    } else {
        lemma_changes_append(a, b.drop_last());
        assert((a + b).drop_last() =~= a + b.drop_last());
        assert((a + b).last() == b.last());
        if !b.last().query {
            assert(changes(a) + changes(b.drop_last()).push(b.last()) =~= (changes(a) + changes(
                b.drop_last(),
            )).push(b.last()));
        }
    }
}

/// Statements none of which is a query are their own changes.
pub proof fn lemma_changes_of_changes(s: Seq<Sent>)
    requires
        forall|i: int| 0 <= i < s.len() ==> !(#[trigger] s[i]).query,
    ensures
        changes(s) == s,
    decreases s.len(),
{
    if s.len() > 0 {
        lemma_changes_of_changes(s.drop_last());
        assert(s.drop_last().push(s.last()) =~= s);
    } else {
        assert(changes(s) =~= s);
    }
}

/// `after` is `before` followed by one query `sql` with `args` (whatever it read).
pub open spec fn one_query(before: Seq<Sent>, after: Seq<Sent>, sql: Seq<char>, args: Seq<Param>) -> bool {
    &&& after == before.push(after.last())
    &&& after.last().query
    &&& after.last().sql == sql
    &&& after.last().args == args
}

/// The rows of a query result as plain sequences.
pub open spec fn rows_view(rows: Seq<Vec<SqlValue>>) -> Seq<Seq<SqlValue>> {
    rows.map_values(|r: Vec<SqlValue>| r@)
}

/// A database connection together with the history of the statements sent through it, and
/// of the local dates looked up for them (how many days back, and the date given).
pub struct Db {
    conn: rusqlite::Connection,
    log: Ghost<Seq<Sent>>,
    dates: Ghost<Seq<(i64, Seq<char>)>>,
}

impl Db {
    /// Every statement sent through this connection, oldest first.
    pub closed spec fn history(&self) -> Seq<Sent> {
        self.log@
    }

    /// Every local date looked up through this connection, oldest first: the number of days
    /// back it was asked for and the `YYYY-MM-DD` date the clock gave.
    pub closed spec fn dates(&self) -> Seq<(i64, Seq<char>)> {
        self.dates@
    }

    /// The local date `days_back` days before now (`YYYY-MM-DD`), recorded as looked up.
    pub fn local_date(&mut self, days_back: i64) -> (r: String)
        requires
            -90000000 <= days_back <= 90000000,
        ensures
            final(self).history() == old(self).history(),
            final(self).dates() == old(self).dates().push((days_back, r@)),
    {
        let r = local_date_days_ago(days_back);
        proof {
            self.dates@ = self.dates@.push((days_back, r@));
        }
        r
    }

    /// Opens (creating when missing) the database at `path`; nothing has been sent yet.
    pub fn open(path: &str) -> (r: Result<Db, rusqlite::Error>)
        ensures
            r matches Ok(db) ==> db.history() == Seq::<Sent>::empty() && db.dates() == Seq::<
                (i64, Seq<char>),
            >::empty(),
    {
        let conn = open_connection(path)?;
        Ok(Db { conn, log: Ghost(Seq::empty()), dates: Ghost(Seq::empty()) })
    }

    /// The underlying connection, for work outside this library (what is sent through it
    /// directly is not part of the history).
    pub fn connection(&self) -> &rusqlite::Connection {
        &self.conn
    }

    /// Sends one statement with positional parameters; the number of changed rows.
    pub fn run(&mut self, sql: &str, args: &[SqlArg]) -> (r: Result<usize, rusqlite::Error>)
        ensures
            final(self).history() == old(self).history().push(change(sql@, params(args@))),
            changes(final(self).history()) == changes(old(self).history()).push(change(sql@, params(args@))),
            final(self).dates() == old(self).dates(),
    {
        let r = execute(&self.conn, sql, args);
        proof {
            self.log@ = self.log@.push(change(sql@, params(args@)));
            assert(self.log@.drop_last() =~= old(self).log@);
        }
        r
    }

    /// Sends a batch of statements without parameters.
    pub fn run_batch(&mut self, sql: &str) -> (r: Result<(), rusqlite::Error>)
        ensures
            final(self).history() == old(self).history().push(change(sql@, Seq::empty())),
            final(self).dates() == old(self).dates(),
    {
        let r = execute_batch(&self.conn, sql);
        proof {
            self.log@ = self.log@.push(change(sql@, Seq::empty()));
        }
        r
    }

    /// Sends a query and reads every row with `kinds`; the history records the rows read.
    pub fn query(&mut self, sql: &str, args: &[SqlArg], kinds: &[ColumnKind]) -> (r: Result<
        Vec<Vec<SqlValue>>,
        rusqlite::Error,
    >)
        ensures
            r matches Ok(rows) ==> {
                &&& forall|i: int| 0 <= i < rows@.len() ==> row_fits(#[trigger] rows@[i]@, kinds@)
                &&& final(self).history().last().rows == rows_view(rows@)
            },
            one_query(old(self).history(), final(self).history(), sql@, params(args@)),
            changes(final(self).history()) == changes(old(self).history()),
            final(self).dates() == old(self).dates(),
    {
        let r = query_rows(&self.conn, sql, args, kinds);
        proof {
            let rows = match &r {
                Ok(rows) => rows_view(rows@),
                Err(_) => Seq::empty(),
            };
            self.log@ = self.log@.push(Sent { sql: sql@, args: params(args@), query: true, rows });
            assert(self.log@.drop_last() =~= old(self).log@);
        }
        r
    }

    /// The row id of the last row inserted through this connection.
    pub fn last_rowid(&self) -> i64 {
        last_insert_rowid(&self.conn)
    }
}

/// The error's display text (`ToString` of `rusqlite::Error`). Trusted: no claim on the text.
#[verifier::external_body]
pub fn error_text(e: &rusqlite::Error) -> (r: String) {
    e.to_string()
}

} // verus!
