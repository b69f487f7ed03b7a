//! The ingestion engine: schema lifecycle and insertion policy.
//!
//! `init_db` opens a fresh in-memory store, creates the three tables and
//! ingests all commits, then all tags, then all branches, fail-fast at
//! every step.  `traverse` extends commit coverage from an arbitrary
//! resolved starting point without re-creating the schema.  Commit
//! insertion is idempotent (a repeated identifier leaves the stored row
//! untouched), tag insertion fails on a duplicate identifier and aborts
//! the remaining tag walk, branch insertion appends unconditionally.
//!
//! `run_query` accepts arbitrary SQL, which may vandalize the store (the
//! session accepts even a dropped table); every claim the typed
//! operations make is therefore conditioned on `Store::intact`, which
//! `init_db` establishes, the typed operations preserve, and `run_query`
//! forfeits.

use vstd::prelude::*;

use crate::data::{
    clone_opt_string, opt_view, spec_branch_cols, spec_branch_row, spec_commit_cols,
    spec_commit_key, spec_tag_cols, spec_tag_key, spec_truncate7, truncate_id, upsert_keep,
    BranchData, BranchKind, BranchRow, CommitData, CommitRow, IngestError, ReaderError, TagData,
    TagRow,
};
use crate::db::{
    branch_rows, commit_rows, exec_count_commits, exec_count_tags, exec_insert_branch,
    exec_insert_commit, exec_insert_tag, exec_run_sql, exec_select_branches, exec_select_commit,
    exec_select_tag, open_store, sql_compiles, tag_rows, typed_store,
};
use crate::timefmt::format_utc;
use vstd::multiset::Multiset;
use vstd::string::StringExecFns;

verus! {

broadcast use vstd::multiset::group_multiset_axioms;

/// The `commits` table after ingesting `rows` in order under the
/// insert-or-keep policy.
pub open spec fn commits_fold(
    m: Map<Seq<char>, (Option<Seq<char>>, Seq<char>, Option<Seq<char>>)>,
    rows: Seq<CommitData>,
) -> Map<Seq<char>, (Option<Seq<char>>, Seq<char>, Option<Seq<char>>)>
    decreases rows.len(),
{
    if rows.len() == 0 {
        m
    } else {
        commits_fold(
            upsert_keep(m, spec_commit_key(rows[0]), spec_commit_cols(rows[0])),
            rows.drop_first(),
        )
    }
}

/// The `tags` table after ingesting `rows` in order.
pub open spec fn tags_fold(
    m: Map<
        Seq<char>,
        (
            Option<Seq<char>>,
            Seq<char>,
            Option<Seq<char>>,
            Option<Seq<char>>,
            Option<Seq<char>>,
            Option<Seq<char>>,
        ),
    >,
    rows: Seq<TagData>,
) -> Map<
    Seq<char>,
    (
        Option<Seq<char>>,
        Seq<char>,
        Option<Seq<char>>,
        Option<Seq<char>>,
        Option<Seq<char>>,
        Option<Seq<char>>,
    ),
>
    decreases rows.len(),
{
    if rows.len() == 0 {
        m
    } else {
        tags_fold(m.insert(spec_tag_key(rows[0]), spec_tag_cols(rows[0])), rows.drop_first())
    }
}

/// Every tag key in `rows` is fresh: absent from `m` and from the rows
/// before it.  Tag ingestion succeeds exactly on fresh sequences — the
/// duplicate-aborts policy, deliberately unlike the commit policy.
pub open spec fn tags_fresh(
    m: Map<
        Seq<char>,
        (
            Option<Seq<char>>,
            Seq<char>,
            Option<Seq<char>>,
            Option<Seq<char>>,
            Option<Seq<char>>,
            Option<Seq<char>>,
        ),
    >,
    rows: Seq<TagData>,
) -> bool
    decreases rows.len(),
{
    rows.len() == 0 || (!m.contains_key(spec_tag_key(rows[0])) && tags_fresh(
        m.insert(spec_tag_key(rows[0]), spec_tag_cols(rows[0])),
        rows.drop_first(),
    ))
}

/// The `branches` table after ingesting `rows`: one appended row each.
pub open spec fn branches_of(rows: Seq<BranchData>) -> Multiset<
    (Option<Seq<char>>, Seq<char>, Option<Seq<char>>, Option<Seq<char>>),
> {
    rows.map_values(|b: BranchData| spec_branch_cols(b)).to_multiset()
}

/// Appending one commit to the fold.
proof fn lemma_commits_fold_push(
    m: Map<Seq<char>, (Option<Seq<char>>, Seq<char>, Option<Seq<char>>)>,
    rows: Seq<CommitData>,
    c: CommitData,
)
    ensures
        commits_fold(m, rows.push(c)) == upsert_keep(
            commits_fold(m, rows),
            spec_commit_key(c),
            spec_commit_cols(c),
        ),
    decreases rows.len(),
{
    let s1 = rows.push(c);
    if rows.len() == 0 {
        let m1 = upsert_keep(m, spec_commit_key(c), spec_commit_cols(c));
        assert(s1[0] == c);
        assert(s1.drop_first() =~= rows);
        assert(commits_fold(m, s1) == commits_fold(m1, rows));
        assert(commits_fold(m1, rows) == m1);
        assert(commits_fold(m, rows) == m);
    } else {
        let m1 = upsert_keep(m, spec_commit_key(rows[0]), spec_commit_cols(rows[0]));
        assert(s1[0] == rows[0]);
        assert(s1.drop_first() =~= rows.drop_first().push(c));
        assert(commits_fold(m, s1) == commits_fold(m1, rows.drop_first().push(c)));
        lemma_commits_fold_push(m1, rows.drop_first(), c);
        assert(commits_fold(m, rows) == commits_fold(m1, rows.drop_first()));
    }
}

/// Appending one tag to the fold.
proof fn lemma_tags_fold_push(
    m: Map<
        Seq<char>,
        (
            Option<Seq<char>>,
            Seq<char>,
            Option<Seq<char>>,
            Option<Seq<char>>,
            Option<Seq<char>>,
            Option<Seq<char>>,
        ),
    >,
    rows: Seq<TagData>,
    t: TagData,
)
    ensures
        tags_fold(m, rows.push(t)) == tags_fold(m, rows).insert(
            spec_tag_key(t),
            spec_tag_cols(t),
        ),
        tags_fresh(m, rows.push(t)) == (tags_fresh(m, rows) && !tags_fold(
            m,
            rows,
        ).contains_key(spec_tag_key(t))),
    decreases rows.len(),
{
    let s1 = rows.push(t);
    if rows.len() == 0 {
        let m1 = m.insert(spec_tag_key(t), spec_tag_cols(t));
        assert(s1[0] == t);
        assert(s1.drop_first() =~= rows);
        assert(tags_fold(m, s1) == tags_fold(m1, rows));
        assert(tags_fold(m1, rows) == m1);
        assert(tags_fold(m, rows) == m);
        assert(tags_fresh(m, s1) == (!m.contains_key(spec_tag_key(t)) && tags_fresh(m1, rows)));
        assert(tags_fresh(m1, rows));
        assert(tags_fresh(m, rows));
    } else {
        let m1 = m.insert(spec_tag_key(rows[0]), spec_tag_cols(rows[0]));
        assert(s1[0] == rows[0]);
        assert(s1.drop_first() =~= rows.drop_first().push(t));
        assert(tags_fold(m, s1) == tags_fold(m1, rows.drop_first().push(t)));
        lemma_tags_fold_push(m1, rows.drop_first(), t);
        assert(tags_fold(m, rows) == tags_fold(m1, rows.drop_first()));
        assert(tags_fresh(m, s1) == (!m.contains_key(spec_tag_key(rows[0])) && tags_fresh(
            m1,
            rows.drop_first().push(t),
        )));
        assert(tags_fresh(m, rows) == (!m.contains_key(spec_tag_key(rows[0])) && tags_fresh(
            m1,
            rows.drop_first(),
        )));
    }
}

/// Appending one branch to the fold.
proof fn lemma_branches_of_push(rows: Seq<BranchData>, b: BranchData)
    ensures
        branches_of(rows.push(b)) == branches_of(rows).insert(spec_branch_cols(b)),
{
    let f = |x: BranchData| spec_branch_cols(x);
    assert(rows.push(b).map_values(f) =~= rows.map_values(f).push(spec_branch_cols(b)));
    rows.map_values(f).to_multiset_ensures();
}

/// The relational store: an in-memory database holding the `commits`,
/// `tags` and `branches` tables.
#[derive(Debug)]
pub struct Store {
    conn: rusqlite::Connection,
}

impl Store {
    /// The rows of the `commits` table, keyed by truncated identifier.
    pub closed spec fn commits(self) -> Map<
        Seq<char>,
        (Option<Seq<char>>, Seq<char>, Option<Seq<char>>),
    > {
        commit_rows(self.conn)
    }

    /// The rows of the `tags` table, keyed by truncated identifier.
    pub closed spec fn tags(self) -> Map<
        Seq<char>,
        (
            Option<Seq<char>>,
            Seq<char>,
            Option<Seq<char>>,
            Option<Seq<char>>,
            Option<Seq<char>>,
            Option<Seq<char>>,
        ),
    > {
        tag_rows(self.conn)
    }

    /// The rows of the `branches` table.
    pub closed spec fn branches(self) -> Multiset<
        (Option<Seq<char>>, Seq<char>, Option<Seq<char>>, Option<Seq<char>>),
    > {
        branch_rows(self.conn)
    }

    /// The store is still the typed one that `init_db` built: the three
    /// tables with their declared schema and representable rows, and
    /// nothing else.  Ad-hoc SQL through `run_query` may destroy this, and
    /// every claim the typed operations make is conditioned on it.
    pub closed spec fn intact(self) -> bool {
        typed_store(self.conn)
    }

    /// Whether SQLite accepts this statement text against the store's
    /// current schema.
    pub closed spec fn compiles(self, sql: Seq<char>) -> bool {
        sql_compiles(self.conn, sql)
    }

    /// The truncation invariant: every identifier column of every row
    /// holds exactly seven characters whenever it is non-null — the key
    /// and target of every tag row, the key of every commit row, and the
    /// head of every branch row.
    pub open spec fn wf(self) -> bool {
        &&& forall|k: Seq<char>| #[trigger] self.commits().contains_key(k) ==> k.len() == 7
        &&& forall|k: Seq<char>| #[trigger] self.tags().contains_key(k) ==> k.len() == 7
        &&& forall|k: Seq<char>|
            self.tags().contains_key(k) ==> (#[trigger] self.tags()[k]).1.len() == 7
        &&& forall|row: (Option<Seq<char>>, Seq<char>, Option<Seq<char>>, Option<Seq<char>>)|
            #[trigger] self.branches().count(row) > 0 ==> match row.2 {
                Option::Some(h) => h.len() == 7,
                Option::None => true,
            }
    }

    /// Run one ad-hoc SQL statement against the store and hand back the
    /// column names and the rows.  A statement the engine cannot even
    /// compile fails and leaves the store exactly as it was; one that
    /// compiles may read or write anything — even drop a table — which
    /// the session accepts, so afterwards nothing further is known of the
    /// store's contents.
    pub fn run_query(&mut self, sql: &str) -> (r: Result<
        (Vec<String>, Vec<Vec<rusqlite::types::Value>>),
        IngestError,
    >)
        ensures
            r matches Ok(out) ==> forall|i: int|
                0 <= i < out.1@.len() ==> (#[trigger] out.1@[i])@.len() == out.0@.len(),
            !old(self).compiles(sql@) ==> {
                &&& r is Err
                &&& final(self).intact() == old(self).intact()
                &&& final(self).commits() == old(self).commits()
                &&& final(self).tags() == old(self).tags()
                &&& final(self).branches() == old(self).branches()
            },
    {
        match exec_run_sql(&mut self.conn, sql) {
            Ok(t) => Ok(t),
            Err(e) => Err(IngestError::Store(e)),
        }
    }
}

/// Ingest one commit row, idempotently: a repeated identifier leaves the
/// stored row untouched, first-seen field values win.
fn insert_commit(st: &mut Store, c: &CommitData) -> (r: Result<(), IngestError>)
    requires
        c.wf(),
    ensures
        r is Err ==> r matches Err(IngestError::Store(_)),
        old(st).intact() ==> {
            &&& final(st).intact()
            &&& (r is Ok ==> final(st).commits() == upsert_keep(
                old(st).commits(),
                spec_commit_key(*c),
                spec_commit_cols(*c),
            ))
            &&& (r is Err ==> final(st).commits() == old(st).commits())
            &&& final(st).tags() == old(st).tags()
            &&& final(st).branches() == old(st).branches()
        },
{
    let id7 = truncate_id(c.id.as_str());
    let date = match format_utc(c.time) {
        Some(d) => d,
        None => {
            proof {
                assert(false);
            }
            String::new()
        },
    };
    match exec_insert_commit(&mut st.conn, id7.as_str(), &c.author, date.as_str(), &c.message) {
        Ok(_) => Ok(()),
        Err(e) => Err(IngestError::Store(e)),
    }
}

/// Ingest one tag row, normalizing both shapes into the common row shape.
/// A duplicate identifier is a failure here, not an ignored conflict —
/// the asymmetry with commits is the intended policy.
fn insert_tag(st: &mut Store, t: &TagData) -> (r: Result<(), IngestError>)
    requires
        t.wf(),
    ensures
        r is Err ==> r matches Err(IngestError::Store(_)),
        old(st).intact() ==> {
            &&& final(st).intact()
            &&& (r is Ok ==> !old(st).tags().contains_key(spec_tag_key(*t)) && final(st).tags()
                == old(st).tags().insert(spec_tag_key(*t), spec_tag_cols(*t)))
            &&& (old(st).tags().contains_key(spec_tag_key(*t)) ==> r is Err)
            &&& (r is Err ==> final(st).tags() == old(st).tags())
            &&& final(st).commits() == old(st).commits()
            &&& final(st).branches() == old(st).branches()
        },
{
    match t {
        TagData::Annotated { id, name, target_id, target_type, tagger, tagger_time, message } => {
            let id7 = truncate_id(id.as_str());
            let target7 = truncate_id(target_id.as_str());
            let date: Option<String> = match tagger_time {
                Some(s) => match format_utc(*s) {
                    Some(d) => Some(d),
                    None => {
                        proof {
                            assert(false);
                        }
                        None
                    },
                },
                None => None,
            };
            let msg: Option<String> = match message {
                Some(m) => Some(crate::sig::remove_pgp_signature(m.as_str())),
                None => None,
            };
            match exec_insert_tag(
                &mut st.conn,
                id7.as_str(),
                name,
                target7.as_str(),
                target_type,
                tagger,
                &date,
                &msg,
            ) {
                Ok(_) => Ok(()),
                Err(e) => Err(IngestError::Store(e)),
            }
        },
        TagData::Lightweight { id, name } => {
            let id7 = truncate_id(id.as_str());
            let ttype: Option<String> = Some(String::from_str("commit"));
            match exec_insert_tag(
                &mut st.conn,
                id7.as_str(),
                name,
                id7.as_str(),
                &ttype,
                &None,
                &None,
                &None,
            ) {
                Ok(_) => Ok(()),
                Err(e) => Err(IngestError::Store(e)),
            }
        },
    }
}

/// Ingest one branch row; branches are appended with no uniqueness
/// constraint, so a local/remote name collision yields two rows.
fn insert_branch(st: &mut Store, b: &BranchData) -> (r: Result<(), IngestError>)
    requires
        b.wf(),
    ensures
        r is Err ==> r matches Err(IngestError::Store(_)),
        old(st).intact() ==> {
            &&& final(st).intact()
            &&& (r is Ok ==> final(st).branches() == old(st).branches().insert(
                spec_branch_cols(*b),
            ))
            &&& (r is Err ==> final(st).branches() == old(st).branches())
            &&& final(st).commits() == old(st).commits()
            &&& final(st).tags() == old(st).tags()
        },
{
    let kind_text: String = match b.kind {
        BranchKind::Local => String::from_str("local"),
        BranchKind::Remote => String::from_str("remote"),
    };
    let (head_id, head_date): (Option<String>, Option<String>) = match &b.head {
        Some(h) => {
            let id7 = truncate_id(h.id.as_str());
            let date = match format_utc(h.time) {
                Some(d) => d,
                None => {
                    proof {
                        assert(false);
                    }
                    String::new()
                },
            };
            (Some(id7), Some(date))
        },
        None => (None, None),
    };
    match exec_insert_branch(&mut st.conn, &b.name, kind_text.as_str(), &head_id, &head_date) {
        Ok(_) => Ok(()),
        Err(e) => Err(IngestError::Store(e)),
    }
}

/// No branch has been ingested yet.
proof fn lemma_branches_of_empty()
    ensures
        branches_of(Seq::<BranchData>::empty()) == Multiset::<
            (Option<Seq<char>>, Seq<char>, Option<Seq<char>>, Option<Seq<char>>),
        >::empty(),
{
    let s = Seq::<BranchData>::empty().map_values(|b: BranchData| spec_branch_cols(b));
    assert(s =~= Seq::<
        (Option<Seq<char>>, Seq<char>, Option<Seq<char>>, Option<Seq<char>>),
    >::empty());
    s.to_multiset_ensures();
    vstd::multiset::lemma_multiset_empty_len(s.to_multiset());
    assert(branches_of(Seq::<BranchData>::empty()) =~= Multiset::<
        (Option<Seq<char>>, Seq<char>, Option<Seq<char>>, Option<Seq<char>>),
    >::empty());
}

/// Open a fresh in-memory store, create the three tables, and ingest all
/// commits, then all tags, then all branches, fail-fast at every step.
/// On success the store holds exactly the folds of the three input
/// sequences: commits under the insert-or-keep policy, tags under the
/// duplicate-aborts policy (so success implies every tag identifier was
/// fresh), branches appended one row each; and the truncation invariant
/// holds.  On failure the store is discarded — there is no partially
/// initialized store visible to the caller.
pub fn init_db(
    commits: &Vec<CommitData>,
    tags: &Vec<TagData>,
    branches: &Vec<BranchData>,
) -> (r: Result<Store, IngestError>)
    requires
        forall|i: int| 0 <= i < commits@.len() ==> (#[trigger] commits@[i]).wf(),
        forall|i: int| 0 <= i < tags@.len() ==> (#[trigger] tags@[i]).wf(),
        forall|i: int| 0 <= i < branches@.len() ==> (#[trigger] branches@[i]).wf(),
    ensures
        r matches Ok(s) ==> {
            &&& s.commits() == commits_fold(
                Map::<Seq<char>, (Option<Seq<char>>, Seq<char>, Option<Seq<char>>)>::empty(),
                commits@,
            )
            &&& s.tags() == tags_fold(empty_tag_table(), tags@)
            &&& tags_fresh(empty_tag_table(), tags@)
            &&& s.branches() == branches_of(branches@)
            &&& s.wf()
            &&& s.intact()
        },
{
    let conn = match open_store() {
        Ok(c) => c,
        Err(e) => {
            return Err(IngestError::Store(e));
        },
    };
    let mut st = Store { conn };
    let ghost empty_c: Map<Seq<char>, (Option<Seq<char>>, Seq<char>, Option<Seq<char>>)> =
        Map::empty();
    let ghost empty_b: Multiset<
        (Option<Seq<char>>, Seq<char>, Option<Seq<char>>, Option<Seq<char>>),
    > = Multiset::empty();
    let mut i: usize = 0;
    while i < commits.len()
        invariant
            forall|k: int| 0 <= k < commits@.len() ==> (#[trigger] commits@[k]).wf(),
            i <= commits@.len(),
            st.intact(),
            st.commits() == commits_fold(empty_c, commits@.take(i as int)),
            forall|k: Seq<char>| #[trigger] st.commits().contains_key(k) ==> k.len() == 7,
            st.tags() == empty_tag_table(),
            st.branches() == empty_b,
        decreases commits@.len() - i,
    {
        match insert_commit(&mut st, &commits[i]) {
            Ok(u) => u,
            Err(e) => {
                return Err(e);
            },
        };
        proof {
            lemma_commits_fold_push(empty_c, commits@.take(i as int), commits@[i as int]);
            assert(commits@.take(i as int).push(commits@[i as int]) =~= commits@.take(
                i as int + 1,
            ));
            crate::data::lemma_truncate7_len(commits@[i as int].id@);
        }
        i += 1;
    }
    proof {
        assert(commits@.take(commits@.len() as int) =~= commits@);
    }
    let mut j: usize = 0;
    while j < tags.len()
        invariant
            forall|k: int| 0 <= k < tags@.len() ==> (#[trigger] tags@[k]).wf(),
            j <= tags@.len(),
            st.intact(),
            st.commits() == commits_fold(empty_c, commits@),
            forall|k: Seq<char>| #[trigger] st.commits().contains_key(k) ==> k.len() == 7,
            st.tags() == tags_fold(empty_tag_table(), tags@.take(j as int)),
            tags_fresh(empty_tag_table(), tags@.take(j as int)),
            forall|k: Seq<char>| #[trigger] st.tags().contains_key(k) ==> k.len() == 7,
            forall|k: Seq<char>|
                st.tags().contains_key(k) ==> (#[trigger] st.tags()[k]).1.len() == 7,
            st.branches() == empty_b,
        decreases tags@.len() - j,
    {
        match insert_tag(&mut st, &tags[j]) {
            Ok(u) => u,
            Err(e) => {
                return Err(e);
            },
        };
        proof {
            lemma_tags_fold_push(empty_tag_table(), tags@.take(j as int), tags@[j as int]);
            assert(tags@.take(j as int).push(tags@[j as int]) =~= tags@.take(j as int + 1));
            match tags@[j as int] {
                TagData::Annotated { id, target_id, .. } => {
                    crate::data::lemma_truncate7_len(id@);
                    crate::data::lemma_truncate7_len(target_id@);
                },
                TagData::Lightweight { id, .. } => {
                    crate::data::lemma_truncate7_len(id@);
                },
            }
        }
        j += 1;
    }
    proof {
        assert(tags@.take(tags@.len() as int) =~= tags@);
        lemma_branches_of_empty();
        assert(branches@.take(0) =~= Seq::<BranchData>::empty());
    }
    let mut b: usize = 0;
    while b < branches.len()
        invariant
            forall|k: int| 0 <= k < branches@.len() ==> (#[trigger] branches@[k]).wf(),
            b <= branches@.len(),
            st.intact(),
            st.commits() == commits_fold(empty_c, commits@),
            forall|k: Seq<char>| #[trigger] st.commits().contains_key(k) ==> k.len() == 7,
            st.tags() == tags_fold(empty_tag_table(), tags@),
            tags_fresh(empty_tag_table(), tags@),
            forall|k: Seq<char>| #[trigger] st.tags().contains_key(k) ==> k.len() == 7,
            forall|k: Seq<char>|
                st.tags().contains_key(k) ==> (#[trigger] st.tags()[k]).1.len() == 7,
            st.branches() == branches_of(branches@.take(b as int)),
            forall|row: (Option<Seq<char>>, Seq<char>, Option<Seq<char>>, Option<Seq<char>>)|
                #[trigger] st.branches().count(row) > 0 ==> match row.2 {
                    Option::Some(h) => h.len() == 7,
                    Option::None => true,
                },
        decreases branches@.len() - b,
    {
        match insert_branch(&mut st, &branches[b]) {
            Ok(u) => u,
            Err(e) => {
                return Err(e);
            },
        };
        proof {
            lemma_branches_of_push(branches@.take(b as int), branches@[b as int]);
            assert(branches@.take(b as int).push(branches@[b as int]) =~= branches@.take(
                b as int + 1,
            ));
            match branches@[b as int].head {
                Option::Some(h) => {
                    crate::data::lemma_truncate7_len(h.id@);
                },
                Option::None => {},
            }
        }
        b += 1;
    }
    proof {
        assert(branches@.take(branches@.len() as int) =~= branches@);
    }
    Ok(st)
}

/// The empty `tags` table, spelled out once.
pub open spec fn empty_tag_table() -> Map<
    Seq<char>,
    (
        Option<Seq<char>>,
        Seq<char>,
        Option<Seq<char>>,
        Option<Seq<char>>,
        Option<Seq<char>>,
        Option<Seq<char>>,
    ),
> {
    Map::empty()
}

/// Extend commit coverage from an arbitrary resolved starting point.
/// The caller resolves the identifier prefix first and hands in either the
/// ancestry walked from the resolved commit or the resolution error; a
/// failed resolution is surfaced as the corresponding reader error and the
/// store is not touched at all.  Ingestion follows the same idempotent
/// policy as the initial load, so overlapping walks are safe: rows already
/// present keep their first-seen values.  A mid-walk store failure leaves
/// the rows inserted before it (insertion is per-commit, not
/// transactional), and never touches tags or branches.
pub fn traverse(st: &mut Store, resolved: Result<Vec<CommitData>, ReaderError>) -> (r: Result<
    (),
    IngestError,
>)
    requires
        resolved matches Ok(cs) ==> forall|i: int|
            0 <= i < cs@.len() ==> (#[trigger] cs@[i]).wf(),
    ensures
        resolved matches Err(e) ==> r == Err::<(), IngestError>(IngestError::Reader(e))
            && *final(st) == *old(st),
        r is Err && resolved is Ok ==> r matches Err(IngestError::Store(_)),
        old(st).intact() ==> {
            &&& final(st).intact()
            &&& final(st).tags() == old(st).tags()
            &&& final(st).branches() == old(st).branches()
            &&& (old(st).wf() ==> final(st).wf())
        },
        resolved matches Ok(cs) ==> (old(st).intact() ==> (r is Ok ==> final(st).commits()
            == commits_fold(old(st).commits(), cs@))),
        resolved matches Ok(cs) ==> (old(st).intact() ==> (r is Err ==> exists|k: int|
            0 <= k <= cs@.len() && final(st).commits() == commits_fold(
                old(st).commits(),
                #[trigger] cs@.take(k),
            ))),
{
    let cs: &Vec<CommitData> = match &resolved {
        Ok(cs) => cs,
        Err(e) => {
            return Err(IngestError::Reader(*e));
        },
    };
    let ghost m0 = st.commits();
    proof {
        assert(m0 == old(st).commits());
    }
    let mut i: usize = 0;
    while i < cs.len()
        invariant
            resolved == Ok::<Vec<CommitData>, ReaderError>(*cs),
            m0 == old(st).commits(),
            forall|k: int| 0 <= k < cs@.len() ==> (#[trigger] cs@[k]).wf(),
            i <= cs@.len(),
            old(st).intact() ==> {
                &&& st.intact()
                &&& st.commits() == commits_fold(m0, cs@.take(i as int))
                &&& (forall|k: Seq<char>|
                    #[trigger] st.commits().contains_key(k) ==> old(st).commits().contains_key(
                        k,
                    ) || k.len() == 7)
                &&& st.tags() == old(st).tags()
                &&& st.branches() == old(st).branches()
            },
        decreases cs@.len() - i,
    {
        match insert_commit(st, &cs[i]) {
            Ok(u) => u,
            Err(e) => {
                proof {
                    if old(st).intact() {
                        let v = resolved->Ok_0;
                        assert(v == *cs);
                        assert(st.commits() == commits_fold(
                            old(st).commits(),
                            v@.take(i as int),
                        ));
                        assert(exists|k: int|
                            0 <= k <= v@.len() && st.commits() == commits_fold(
                                old(st).commits(),
                                #[trigger] v@.take(k),
                            ));
                    }
                }
                return Err(e);
            },
        };
        proof {
            lemma_commits_fold_push(m0, cs@.take(i as int), cs@[i as int]);
            assert(cs@.take(i as int).push(cs@[i as int]) =~= cs@.take(i as int + 1));
            crate::data::lemma_truncate7_len(cs@[i as int].id@);
        }
        i += 1;
    }
    proof {
        assert(cs@.take(cs@.len() as int) =~= cs@);
    }
    Ok(())
}

impl Store {
    /// Look one commit row up by its stored (truncated) identifier.
    pub fn get_commit(&self, id: &str) -> (r: Result<Option<CommitRow>, IngestError>)
        ensures
            self.intact() ==> (r matches Ok(row) ==> match row {
                Option::Some(row) => self.commits().contains_key(id@) && self.commits()[id@] == (
                    opt_view(row.author),
                    row.date@,
                    opt_view(row.message),
                ) && row.id@ == id@,
                Option::None => !self.commits().contains_key(id@),
            }),
    {
        match exec_select_commit(&self.conn, id) {
            Ok(Some(t)) => Ok(
                Some(CommitRow { id: id.to_owned(), author: t.0, date: t.1, message: t.2 }),
            ),
            Ok(None) => Ok(None),
            Err(e) => Err(IngestError::Store(e)),
        }
    }

    /// Look one tag row up by its stored (truncated) identifier.
    pub fn get_tag(&self, id: &str) -> (r: Result<Option<TagRow>, IngestError>)
        ensures
            self.intact() ==> (r matches Ok(row) ==> match row {
                Option::Some(row) => self.tags().contains_key(id@) && self.tags()[id@] == (
                    opt_view(row.name),
                    row.target_id@,
                    opt_view(row.target_type),
                    opt_view(row.tagger),
                    opt_view(row.date),
                    opt_view(row.message),
                ) && row.id@ == id@,
                Option::None => !self.tags().contains_key(id@),
            }),
    {
        match exec_select_tag(&self.conn, id) {
            Ok(Some(t)) => Ok(
                Some(
                    TagRow {
                        id: id.to_owned(),
                        name: t.0,
                        target_id: t.1,
                        target_type: t.2,
                        tagger: t.3,
                        date: t.4,
                        message: t.5,
                    },
                ),
            ),
            Ok(None) => Ok(None),
            Err(e) => Err(IngestError::Store(e)),
        }
    }

    /// All branch rows.  The store keeps no order for them, so the result
    /// is pinned down as a multiset.
    pub fn get_branches(&self) -> (r: Result<Vec<BranchRow>, IngestError>)
        ensures
            self.intact() ==> (r matches Ok(v) ==> v@.map_values(
                |row: BranchRow| spec_branch_row(row),
            ).to_multiset() == self.branches()),
    {
        let rows = match exec_select_branches(&self.conn) {
            Ok(v) => v,
            Err(e) => {
                return Err(IngestError::Store(e));
            },
        };
        let mut out: Vec<BranchRow> = Vec::new();
        let mut i: usize = 0;
        while i < rows.len()
            invariant
                i <= rows@.len(),
                out@.len() == i,
                forall|k: int|
                    0 <= k < i ==> spec_branch_row(#[trigger] out@[k]) == (
                        opt_view(rows@[k].0),
                        rows@[k].1@,
                        opt_view(rows@[k].2),
                        opt_view(rows@[k].3),
                    ),
            decreases rows@.len() - i,
        {
            let t = &rows[i];
            let row = BranchRow {
                name: clone_opt_string(&t.0),
                btype: t.1.clone(),
                head_commit_id: clone_opt_string(&t.2),
                head_commit_date: clone_opt_string(&t.3),
            };
            out.push(row);
            i += 1;
        }
        proof {
            assert(out@.map_values(|row: BranchRow| spec_branch_row(row)) =~= rows@.map_values(
                |t: (Option<String>, String, Option<String>, Option<String>)|
                    (opt_view(t.0), t.1@, opt_view(t.2), opt_view(t.3)),
            ));
        }
        Ok(out)
    }

    /// The number of commit rows.
    pub fn commit_count(&self) -> (r: Result<usize, IngestError>)
        ensures
            self.intact() ==> (r matches Ok(n) ==> self.commits().dom().finite() && n
                == self.commits().len()),
    {
        match exec_count_commits(&self.conn) {
            Ok(n) => Ok(n),
            Err(e) => Err(IngestError::Store(e)),
        }
    }

    /// The number of tag rows.
    pub fn tag_count(&self) -> (r: Result<usize, IngestError>)
        ensures
            self.intact() ==> (r matches Ok(n) ==> self.tags().dom().finite() && n
                == self.tags().len()),
    {
        match exec_count_tags(&self.conn) {
            Ok(n) => Ok(n),
            Err(e) => Err(IngestError::Store(e)),
        }
    }
}

/// `init_db`, guarded: decide at run time whether the batch meets the
/// machine limits that `init_db` demands — identifiers of hash length and
/// timestamps the calendar can render — and refuse the batch (`None`)
/// instead of demanding them of the caller.
pub fn try_init_db(
    commits: &Vec<CommitData>,
    tags: &Vec<TagData>,
    branches: &Vec<BranchData>,
) -> (r: Option<Result<Store, IngestError>>)
    ensures
        r is None <==> !({
            &&& forall|i: int| 0 <= i < commits@.len() ==> (#[trigger] commits@[i]).wf()
            &&& forall|i: int| 0 <= i < tags@.len() ==> (#[trigger] tags@[i]).wf()
            &&& forall|i: int| 0 <= i < branches@.len() ==> (#[trigger] branches@[i]).wf()
        }),
        r matches Some(res) ==> (res matches Ok(s) ==> {
            &&& s.commits() == commits_fold(
                Map::<Seq<char>, (Option<Seq<char>>, Seq<char>, Option<Seq<char>>)>::empty(),
                commits@,
            )
            &&& s.tags() == tags_fold(empty_tag_table(), tags@)
            &&& tags_fresh(empty_tag_table(), tags@)
            &&& s.branches() == branches_of(branches@)
            &&& s.wf()
            &&& s.intact()
        }),
{
    let mut i: usize = 0;
    while i < commits.len()
        invariant
            i <= commits@.len(),
            forall|k: int| 0 <= k < i ==> (#[trigger] commits@[k]).wf(),
        decreases commits@.len() - i,
    {
        if !commits[i].check_wf() {
            return None;
        }
        i += 1;
    }
    let mut j: usize = 0;
    while j < tags.len()
        invariant
            j <= tags@.len(),
            forall|k: int| 0 <= k < j ==> (#[trigger] tags@[k]).wf(),
        decreases tags@.len() - j,
    {
        if !tags[j].check_wf() {
            return None;
        }
        j += 1;
    }
    let mut b: usize = 0;
    while b < branches.len()
        invariant
            b <= branches@.len(),
            forall|k: int| 0 <= k < b ==> (#[trigger] branches@[k]).wf(),
        decreases branches@.len() - b,
    {
        if !branches[b].check_wf() {
            return None;
        }
        b += 1;
    }
    Some(init_db(commits, tags, branches))
}

/// `traverse`, guarded in the same way as `try_init_db`.
pub fn try_traverse(st: &mut Store, resolved: Result<Vec<CommitData>, ReaderError>) -> (r: Option<
    Result<(), IngestError>,
>)
    ensures
        r is None <==> (resolved matches Ok(cs) && !(forall|i: int|
            0 <= i < cs@.len() ==> (#[trigger] cs@[i]).wf())),
        r is None ==> *final(st) == *old(st),
        r matches Some(res) ==> (resolved matches Err(e) ==> res == Err::<(), IngestError>(
            IngestError::Reader(e),
        ) && *final(st) == *old(st)),
        old(st).intact() ==> {
            &&& final(st).intact()
            &&& final(st).tags() == old(st).tags()
            &&& final(st).branches() == old(st).branches()
            &&& (old(st).wf() ==> final(st).wf())
        },
        r matches Some(res) ==> (res is Err && resolved is Ok ==> res matches Err(
            IngestError::Store(_),
        )),
        r matches Some(res) ==> (old(st).intact() ==> {
            &&& (resolved matches Ok(cs) ==> (res is Ok ==> final(st).commits() == commits_fold(
                old(st).commits(),
                cs@,
            )))
            &&& (resolved matches Ok(cs) ==> (res is Err ==> exists|k: int|
                0 <= k <= cs@.len() && final(st).commits() == commits_fold(
                    old(st).commits(),
                    #[trigger] cs@.take(k),
                )))
        }),
{
    match &resolved {
        Ok(cs) => {
            let mut i: usize = 0;
            while i < cs.len()
                invariant
                    resolved == Ok::<Vec<CommitData>, ReaderError>(*cs),
                    st == old(st),
                    i <= cs@.len(),
                    forall|k: int| 0 <= k < i ==> (#[trigger] cs@[k]).wf(),
                decreases cs@.len() - i,
            {
                if !cs[i].check_wf() {
                    proof {
                        assert(!(resolved->Ok_0@[i as int]).wf());
                    }
                    return None;
                }
                i += 1;
            }
        },
        Err(_) => {},
    }
    Some(traverse(st, resolved))
}

/// Commit insertion is idempotent: ingesting a commit whose
/// truncated identifier is already bound leaves the table unchanged, and
/// the binding always carries the first-seen field values.
pub proof fn lemma_commit_insert_idempotent(
    m: Map<Seq<char>, (Option<Seq<char>>, Seq<char>, Option<Seq<char>>)>,
    c: CommitData,
    d: CommitData,
)
    requires
        spec_commit_key(c) == spec_commit_key(d),
    ensures
        ({
            let m1 = upsert_keep(m, spec_commit_key(c), spec_commit_cols(c));
            &&& upsert_keep(m1, spec_commit_key(d), spec_commit_cols(d)) == m1
            &&& m1[spec_commit_key(c)] == if m.contains_key(spec_commit_key(c)) {
                m[spec_commit_key(c)]
            } else {
                spec_commit_cols(c)
            }
        }),
{
}

/// A lightweight tag row always has target type `commit`, no
/// tagger, no date and no message, and its target identifier is its own
/// identifier.
pub proof fn lemma_lightweight_tag_shape(t: TagData)
    requires
        t is Lightweight,
    ensures
        spec_tag_cols(t).2 == Option::Some("commit"@),
        spec_tag_cols(t).3 is None,
        spec_tag_cols(t).4 is None,
        spec_tag_cols(t).5 is None,
        spec_tag_cols(t).1 == spec_tag_key(t),
{
}

/// An annotated tag row's identifier differs from its target
/// identifier whenever the two truncated identifiers differ.  (Two
/// distinct full hashes that share their first seven characters collapse
/// to the same stored text; the hypothesis rules exactly that out.)
pub proof fn lemma_annotated_tag_ids(t: TagData)
    requires
        t matches TagData::Annotated { id, target_id, .. } && spec_truncate7(id@)
            != spec_truncate7(target_id@),
    ensures
        spec_tag_key(t) != spec_tag_cols(t).1,
{
}

} // verus!
