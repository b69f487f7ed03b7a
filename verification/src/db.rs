//! Trusted boundary to the embedded SQLite store.
//!
//! The store is a `rusqlite` in-memory database used as a black box: the
//! library never restates SQL semantics beyond what each fixed statement
//! below does to the three tables.  The contents of the tables are named by
//! three uninterpreted functions — `commit_rows`, `tag_rows` and
//! `branch_rows` — and every wrapper's contract says, over those names, what
//! its one statement does.  A failed SQLite statement has no effect (SQLite
//! statements are atomic), so a wrapper's `Err` leaves the tables unchanged.
//!
//! Those readings presume the database still looks like the one
//! `open_store` made; ad-hoc SQL (a dropped or rebuilt table, a trigger, a
//! row with a null or non-text key) can break them.  `typed_store` names
//! that integrity: `open_store` establishes it, the fixed-statement
//! wrappers preserve it and claim nothing without it, and `exec_run_sql` —
//! the one entry for arbitrary statements — does not restore it, so after
//! ad-hoc SQL every claim about the tables is deliberately lost.

use vstd::prelude::*;

use crate::data::opt_view;
use crate::data::upsert_keep;
use vstd::multiset::Multiset;

verus! {

#[verifier::external_type_specification]
#[verifier::external_body]
pub struct ExConnection(rusqlite::Connection);

#[verifier::external_type_specification]
#[verifier::external_body]
pub struct ExSqlError(rusqlite::Error);

#[verifier::external_type_specification]
#[verifier::external_body]
pub struct ExValue(rusqlite::types::Value);

// The rows of the `commits` table, keyed by the `id` column; the value is
// (author, date, message).  A table that does not exist holds no rows.
pub uninterp spec fn commit_rows(conn: rusqlite::Connection) -> Map<
    Seq<char>,
    (Option<Seq<char>>, Seq<char>, Option<Seq<char>>),
>;

// The rows of the `tags` table, keyed by the `id` column; the value is
// (name, target_id, target_type, tagger, date, message).
pub uninterp spec fn tag_rows(conn: rusqlite::Connection) -> Map<
    Seq<char>,
    (
        Option<Seq<char>>,
        Seq<char>,
        Option<Seq<char>>,
        Option<Seq<char>>,
        Option<Seq<char>>,
        Option<Seq<char>>,
    ),
>;

// The rows of the `branches` table, which has no key: a multiset of
// (name, type, head_commit_id, head_commit_date).
pub uninterp spec fn branch_rows(conn: rusqlite::Connection) -> Multiset<
    (Option<Seq<char>>, Seq<char>, Option<Seq<char>>, Option<Seq<char>>),
>;

// The database is still the one `open_store` made: its schema holds exactly
// the three tables with their declared columns and keys — no other table,
// no trigger, no view — and every stored row fits the readings above (text
// in each column declared NOT NULL or used as a key, text or null
// elsewhere).  Fixed-statement wrappers preserve this; arbitrary SQL need
// not.
pub uninterp spec fn typed_store(conn: rusqlite::Connection) -> bool;

// Whether rusqlite's `prepare` accepts this statement text on this
// connection: a function of the text and the connection's schema alone.
pub uninterp spec fn sql_compiles(conn: rusqlite::Connection, sql: Seq<char>) -> bool;

/// Relies on rusqlite's `Connection::open_in_memory` and `Connection::execute`
/// running exactly these three CREATE TABLE statements on the fresh
/// database: the connection comes back with exactly the three declared
/// tables, all empty, and nothing else in its schema.
#[verifier::external_body]
pub(crate) fn open_store() -> (r: Result<rusqlite::Connection, rusqlite::Error>)
    ensures
        r matches Ok(conn) ==> {
            &&& typed_store(conn)
            &&& commit_rows(conn) == Map::<
                Seq<char>,
                (Option<Seq<char>>, Seq<char>, Option<Seq<char>>),
            >::empty()
            &&& tag_rows(conn) == Map::<
                Seq<char>,
                (
                    Option<Seq<char>>,
                    Seq<char>,
                    Option<Seq<char>>,
                    Option<Seq<char>>,
                    Option<Seq<char>>,
                    Option<Seq<char>>,
                ),
            >::empty()
            &&& branch_rows(conn) == Multiset::<
                (Option<Seq<char>>, Seq<char>, Option<Seq<char>>, Option<Seq<char>>),
            >::empty()
        },
{
    let conn = rusqlite::Connection::open_in_memory()?;
    conn.execute(
        "CREATE TABLE commits (id TEXT PRIMARY KEY, author TEXT, date TEXT NOT NULL, message TEXT)",
        (),
    )?;
    conn.execute(
        "CREATE TABLE tags (id TEXT PRIMARY KEY, name TEXT, target_id TEXT NOT NULL, target_type TEXT, tagger TEXT, date TEXT, message TEXT)",
        (),
    )?;
    conn.execute(
        "CREATE TABLE branches (name TEXT, type TEXT, head_commit_id TEXT, head_commit_date TEXT)",
        (),
    )?;
    Ok(conn)
}

/// Relies on rusqlite's `Connection::execute` running one INSERT OR IGNORE
/// on the `commits` table.  On a typed store — where no trigger exists and
/// `commits` still has its PRIMARY KEY — the statement touches no other
/// table and cannot alter the schema; on success the binding is added
/// under `id` unless that key is already present, in which case SQLite
/// documents that the conflicting row is silently dropped and the stored
/// row is kept.  Without a typed store nothing is claimed.
#[verifier::external_body]
pub(crate) fn exec_insert_commit(
    conn: &mut rusqlite::Connection,
    id: &str,
    author: &Option<String>,
    date: &str,
    message: &Option<String>,
) -> (r: Result<(), rusqlite::Error>)
    ensures
        typed_store(*old(conn)) ==> {
            &&& typed_store(*final(conn))
            &&& (r is Ok ==> commit_rows(*final(conn)) == upsert_keep(
                commit_rows(*old(conn)),
                id@,
                (opt_view(*author), date@, opt_view(*message)),
            ))
            &&& (r is Err ==> commit_rows(*final(conn)) == commit_rows(*old(conn)))
            &&& tag_rows(*final(conn)) == tag_rows(*old(conn))
            &&& branch_rows(*final(conn)) == branch_rows(*old(conn))
        },
{
    match conn.execute(
        "INSERT OR IGNORE INTO commits (id, author, date, message) VALUES (?1, ?2, ?3, ?4)",
        (id, author, date, message),
    ) {
        Ok(_) => Ok(()),
        Err(e) => Err(e),
    }
}

/// Relies on rusqlite's `Connection::execute` running one plain INSERT on
/// the `tags` table.  On a typed store the statement touches no other
/// table; on success the binding is added under `id`, and a duplicate key
/// violates the PRIMARY KEY constraint, which SQLite documents as failing
/// the statement, so a present key always yields `Err` and a failed
/// statement changes nothing.  Without a typed store nothing is claimed.
#[verifier::external_body]
pub(crate) fn exec_insert_tag(
    conn: &mut rusqlite::Connection,
    id: &str,
    name: &Option<String>,
    target_id: &str,
    target_type: &Option<String>,
    tagger: &Option<String>,
    date: &Option<String>,
    message: &Option<String>,
) -> (r: Result<(), rusqlite::Error>)
    ensures
        typed_store(*old(conn)) ==> {
            &&& typed_store(*final(conn))
            &&& (r is Ok ==> !tag_rows(*old(conn)).contains_key(id@) && tag_rows(*final(conn))
                == tag_rows(*old(conn)).insert(
                id@,
                (
                    opt_view(*name),
                    target_id@,
                    opt_view(*target_type),
                    opt_view(*tagger),
                    opt_view(*date),
                    opt_view(*message),
                ),
            ))
            &&& (tag_rows(*old(conn)).contains_key(id@) ==> r is Err)
            &&& (r is Err ==> tag_rows(*final(conn)) == tag_rows(*old(conn)))
            &&& commit_rows(*final(conn)) == commit_rows(*old(conn))
            &&& branch_rows(*final(conn)) == branch_rows(*old(conn))
        },
{
    match conn.execute(
        "INSERT INTO tags (id, name, target_id, target_type, tagger, date, message)
         VALUES (?1, ?2, ?3, ?4, ?5, ?6, ?7)",
        (id, name, target_id, target_type, tagger, date, message),
    ) {
        Ok(_) => Ok(()),
        Err(e) => Err(e),
    }
}

/// Relies on rusqlite's `Connection::execute` running one plain INSERT on
/// the `branches` table, which has no uniqueness constraint: on a typed
/// store the row is appended on success and no other table is touched.
/// Without a typed store nothing is claimed.
#[verifier::external_body]
pub(crate) fn exec_insert_branch(
    conn: &mut rusqlite::Connection,
    name: &Option<String>,
    btype: &str,
    head_commit_id: &Option<String>,
    head_commit_date: &Option<String>,
) -> (r: Result<(), rusqlite::Error>)
    ensures
        typed_store(*old(conn)) ==> {
            &&& typed_store(*final(conn))
            &&& (r is Ok ==> branch_rows(*final(conn)) == branch_rows(*old(conn)).insert(
                (
                    opt_view(*name),
                    btype@,
                    opt_view(*head_commit_id),
                    opt_view(*head_commit_date),
                ),
            ))
            &&& (r is Err ==> branch_rows(*final(conn)) == branch_rows(*old(conn)))
            &&& commit_rows(*final(conn)) == commit_rows(*old(conn))
            &&& tag_rows(*final(conn)) == tag_rows(*old(conn))
        },
{
    match conn.execute(
        "INSERT INTO branches (name, type, head_commit_id, head_commit_date)
         VALUES (?1, ?2, ?3, ?4)",
        (name, btype, head_commit_id, head_commit_date),
    ) {
        Ok(_) => Ok(()),
        Err(e) => Err(e),
    }
}

/// Relies on rusqlite's `Connection::query_row` running one SELECT by key
/// on the `commits` table: on a typed store the columns of the stored row
/// come back when the key is present, `QueryReturnedNoRows` when it is
/// not.
#[verifier::external_body]
pub(crate) fn exec_select_commit(conn: &rusqlite::Connection, id: &str) -> (r: Result<
    Option<(Option<String>, String, Option<String>)>,
    rusqlite::Error,
>)
    ensures
        typed_store(*conn) ==> (r matches Ok(row) ==> match row {
            Option::Some(t) => commit_rows(*conn).contains_key(id@) && commit_rows(*conn)[id@]
                == (opt_view(t.0), t.1@, opt_view(t.2)),
            Option::None => !commit_rows(*conn).contains_key(id@),
        }),
{
    match conn.query_row(
        "SELECT author, date, message FROM commits WHERE id = ?1",
        (id,),
        |row| Ok((row.get(0)?, row.get(1)?, row.get(2)?)),
    ) {
        Ok(t) => Ok(Some(t)),
        Err(rusqlite::Error::QueryReturnedNoRows) => Ok(None),
        Err(e) => Err(e),
    }
}

/// Relies on rusqlite's `Connection::query_row` running one SELECT by key
/// on the `tags` table, as `exec_select_commit` does on `commits`.
#[verifier::external_body]
pub(crate) fn exec_select_tag(conn: &rusqlite::Connection, id: &str) -> (r: Result<
    Option<
        (
            Option<String>,
            String,
            Option<String>,
            Option<String>,
            Option<String>,
            Option<String>,
        ),
    >,
    rusqlite::Error,
>)
    ensures
        typed_store(*conn) ==> (r matches Ok(row) ==> match row {
            Option::Some(t) => tag_rows(*conn).contains_key(id@) && tag_rows(*conn)[id@] == (
                opt_view(t.0),
                t.1@,
                opt_view(t.2),
                opt_view(t.3),
                opt_view(t.4),
                opt_view(t.5),
            ),
            Option::None => !tag_rows(*conn).contains_key(id@),
        }),
{
    match conn.query_row(
        "SELECT name, target_id, target_type, tagger, date, message FROM tags WHERE id = ?1",
        (id,),
        |row| Ok((row.get(0)?, row.get(1)?, row.get(2)?, row.get(3)?, row.get(4)?, row.get(5)?)),
    ) {
        Ok(t) => Ok(Some(t)),
        Err(rusqlite::Error::QueryReturnedNoRows) => Ok(None),
        Err(e) => Err(e),
    }
}

/// The branch rows a read-back vector stands for.
pub open spec fn branch_vec_rows(
    v: Seq<(Option<String>, String, Option<String>, Option<String>)>,
) -> Multiset<(Option<Seq<char>>, Seq<char>, Option<Seq<char>>, Option<Seq<char>>)> {
    v.map_values(
        |t: (Option<String>, String, Option<String>, Option<String>)|
            (opt_view(t.0), t.1@, opt_view(t.2), opt_view(t.3)),
    ).to_multiset()
}

/// Relies on rusqlite's `Connection::prepare` and `Statement::query_map`
/// running one SELECT over the whole `branches` table: on a typed store
/// every stored row comes back exactly once; SQLite leaves the order
/// unspecified, so only the multiset is stated.
#[verifier::external_body]
pub(crate) fn exec_select_branches(conn: &rusqlite::Connection) -> (r: Result<
    Vec<(Option<String>, String, Option<String>, Option<String>)>,
    rusqlite::Error,
>)
    ensures
        typed_store(*conn) ==> (r matches Ok(v) ==> branch_vec_rows(v@) == branch_rows(*conn)),
{
    let mut stmt = match conn.prepare(
        "SELECT name, type, head_commit_id, head_commit_date FROM branches",
    ) {
        Ok(s) => s,
        Err(e) => return Err(e),
    };
    let rows = match stmt.query_map((), |row| {
        Ok((row.get(0)?, row.get(1)?, row.get(2)?, row.get(3)?))
    }) {
        Ok(r) => r,
        Err(e) => return Err(e),
    };
    rows.collect()
}

/// Relies on rusqlite's `Connection::prepare` and `Statement::query_map`
/// running one arbitrary caller-supplied statement: every returned row
/// carries one value per returned column, and a statement that `prepare`
/// refuses — a fact of the text and the schema alone — runs nothing, so
/// it fails and leaves the whole database as it was.  Beyond that the
/// statement may have written anything, so nothing else is claimed about
/// the tables afterwards — the connection is taken `&mut` exactly so that
/// all knowledge of the contents is given up.
#[verifier::external_body]
pub(crate) fn exec_run_sql(conn: &mut rusqlite::Connection, sql: &str) -> (r: Result<
    (Vec<String>, Vec<Vec<rusqlite::types::Value>>),
    rusqlite::Error,
>)
    ensures
        r matches Ok(out) ==> forall|i: int|
            0 <= i < out.1@.len() ==> (#[trigger] out.1@[i])@.len() == out.0@.len(),
        !sql_compiles(*old(conn), sql@) ==> {
            &&& r is Err
            &&& typed_store(*final(conn)) == typed_store(*old(conn))
            &&& commit_rows(*final(conn)) == commit_rows(*old(conn))
            &&& tag_rows(*final(conn)) == tag_rows(*old(conn))
            &&& branch_rows(*final(conn)) == branch_rows(*old(conn))
        },
{
    let mut stmt = conn.prepare(sql)?;
    let headers: Vec<String> = stmt.column_names().iter().map(|s| s.to_string()).collect();
    let width = headers.len();
    let rows = stmt.query_map([], |row| {
        let mut values = Vec::with_capacity(width);
        for col in 0..width {
            values.push(row.get(col).unwrap_or(rusqlite::types::Value::Null));
        }
        Ok(values)
    })?;
    let collected: Result<Vec<_>, _> = rows.collect();
    Ok((headers, collected?))
}

/// Relies on rusqlite's `Connection::query_row` running one SELECT
/// COUNT(*) on the `commits` table: on a typed store — keyed rows, every
/// key text — SQLite counts one row per binding, so the table is finite
/// and the count is its size.
#[verifier::external_body]
pub(crate) fn exec_count_commits(conn: &rusqlite::Connection) -> (r: Result<
    usize,
    rusqlite::Error,
>)
    ensures
        typed_store(*conn) ==> (r matches Ok(n) ==> commit_rows(*conn).dom().finite() && n
            == commit_rows(*conn).len()),
{
    match conn.query_row("SELECT COUNT(*) FROM commits", (), |row| row.get::<_, i64>(0)) {
        Ok(n) => Ok(n as usize),
        Err(e) => Err(e),
    }
}

/// Relies on rusqlite's `Connection::query_row` running one SELECT
/// COUNT(*) on the `tags` table, as `exec_count_commits` does.
#[verifier::external_body]
pub(crate) fn exec_count_tags(conn: &rusqlite::Connection) -> (r: Result<usize, rusqlite::Error>)
    ensures
        typed_store(*conn) ==> (r matches Ok(n) ==> tag_rows(*conn).dom().finite() && n
            == tag_rows(*conn).len()),
{
    match conn.query_row("SELECT COUNT(*) FROM tags", (), |row| row.get::<_, i64>(0)) {
        Ok(n) => Ok(n as usize),
        Err(e) => Err(e),
    }
}

} // verus!
