//! The objects handed in by the repository reader, the rows they become,
//! and the errors of the two subsystems.
//!
//! Three entities are stored, each a denormalized snapshot taken at
//! ingestion time: a commit, a tag (annotated and lightweight shapes are
//! normalized into one row shape), and a branch reference.  Relationships
//! are by identifier text only; every identifier column holds the first
//! seven characters of the full object hash.

use vstd::prelude::*;

use crate::sig::spec_strip_signature;
use crate::timefmt::{format_utc, utc_time_string};
use vstd::string::StrSliceExecFns;

verus! {

/// The view of an optional string: the character sequence, if present.
pub open spec fn opt_view(o: Option<String>) -> Option<Seq<char>> {
    match o {
        Option::Some(s) => Option::Some(s@),
        Option::None => Option::None,
    }
}

/// The first seven characters of an identifier; shorter text is kept whole.
/// Truncation trades global uniqueness for readability, a deliberate choice.
pub open spec fn spec_truncate7(s: Seq<char>) -> Seq<char> {
    if s.len() <= 7 {
        s
    } else {
        s.subrange(0, 7)
    }
}

/// Truncate an object identifier to its display form.
pub fn truncate_id(id: &str) -> (r: String)
    ensures
        r@ == spec_truncate7(id@),
{
    let n = id.unicode_len();
    if n <= 7 {
        id.to_owned()
    } else {
        let t = id.substring_char(0, 7);
        t.to_owned()
    }
}

/// Truncating a full identifier always yields exactly seven characters.
pub proof fn lemma_truncate7_len(s: Seq<char>)
    requires
        s.len() >= 7,
    ensures
        spec_truncate7(s).len() == 7,
{
}

/// The timestamp's rendered text, under the assumption that it renders.
pub open spec fn spec_time_text(secs: i64) -> Seq<char> {
    match utc_time_string(secs) {
        Option::Some(s) => s,
        Option::None => Seq::empty(),
    }
}

/// Whether a timestamp lies in the range that the calendar can render.
pub open spec fn time_renders(secs: i64) -> bool {
    utc_time_string(secs) is Some
}

/// Decide at run time whether a timestamp can be rendered.
pub fn check_time_renders(secs: i64) -> (b: bool)
    ensures
        b == time_renders(secs),
{
    format_utc(secs).is_some()
}

/// A commit as the repository reader hands it in: the full hash, the
/// author's display name if the object carries one, the commit time in
/// seconds since the Unix epoch, and the message if it is valid text.
pub struct CommitData {
    pub id: String,
    pub author: Option<String>,
    pub time: i64,
    pub message: Option<String>,
}

impl CommitData {
    /// A full object hash has at least seven characters, and the commit
    /// time must be renderable (the calendar range is a machine limit).
    pub open spec fn wf(self) -> bool {
        self.id@.len() >= 7 && time_renders(self.time)
    }

    /// Decide `wf` at run time.
    pub fn check_wf(&self) -> (b: bool)
        ensures
            b == self.wf(),
    {
        self.id.as_str().unicode_len() >= 7 && check_time_renders(self.time)
    }
}

/// A tag reference as the reader hands it in.  An annotated tag is its own
/// object, distinct from its target; a lightweight tag is a bare reference
/// whose only identity is the object it points at.
pub enum TagData {
    Annotated {
        id: String,
        name: Option<String>,
        target_id: String,
        target_type: Option<String>,
        tagger: Option<String>,
        tagger_time: Option<i64>,
        message: Option<String>,
    },
    Lightweight {
        id: String,
        name: Option<String>,
    },
}

impl TagData {
    pub open spec fn wf(self) -> bool {
        match self {
            TagData::Annotated { id, target_id, tagger_time, .. } => {
                id@.len() >= 7 && target_id@.len() >= 7 && match tagger_time {
                    Option::Some(t) => time_renders(t),
                    Option::None => true,
                }
            },
            TagData::Lightweight { id, .. } => id@.len() >= 7,
        }
    }

    /// Decide `wf` at run time.
    pub fn check_wf(&self) -> (b: bool)
        ensures
            b == self.wf(),
    {
        match self {
            TagData::Annotated { id, target_id, tagger_time, .. } => {
                id.as_str().unicode_len() >= 7 && target_id.as_str().unicode_len() >= 7 && (
                match tagger_time {
                    Some(t) => check_time_renders(*t),
                    None => true,
                })
            },
            TagData::Lightweight { id, .. } => id.as_str().unicode_len() >= 7,
        }
    }
}

/// Local or remote, the two branch namespaces.  A name collision across the
/// two yields two rows told apart by the `type` column, which is intended.
#[derive(Clone, Copy, PartialEq, Eq, Structural, Debug)]
pub enum BranchKind {
    Local,
    Remote,
}

/// The head a branch points at, when it resolves to a commit.
pub struct BranchHead {
    pub id: String,
    pub time: i64,
}

/// A branch reference as the reader hands it in.  A head that does not
/// resolve to a commit degrades to `None`, not to an error.
pub struct BranchData {
    pub name: Option<String>,
    pub kind: BranchKind,
    pub head: Option<BranchHead>,
}

impl BranchData {
    pub open spec fn wf(self) -> bool {
        match self.head {
            Option::Some(h) => h.id@.len() >= 7 && time_renders(h.time),
            Option::None => true,
        }
    }

    /// Decide `wf` at run time.
    pub fn check_wf(&self) -> (b: bool)
        ensures
            b == self.wf(),
    {
        match &self.head {
            Some(h) => h.id.as_str().unicode_len() >= 7 && check_time_renders(h.time),
            None => true,
        }
    }
}

/// What went wrong on the repository side.  The library itself raises only
/// `NotFound` and `Ambiguous` (identifier resolution); the remaining kinds
/// are raised by the caller that reads the repository and are carried
/// through unchanged.
#[derive(Clone, Copy, PartialEq, Eq, Structural, Debug)]
pub enum ReaderError {
    /// No object matches the given identifier prefix.
    NotFound,
    /// More than one object matches the given identifier prefix.
    Ambiguous,
    /// The path is not a valid repository root.
    InvalidPath,
    /// A reference name is not valid text.
    InvalidName,
    /// The underlying repository could not be read.
    Io,
}

/// An ingestion failure, tagged by the subsystem that raised it so that a
/// caller can render a distinguishable message.
#[derive(Debug)]
pub enum IngestError {
    /// The repository reader failed.
    Reader(ReaderError),
    /// The store failed to execute a statement.
    Store(rusqlite::Error),
}

// The column tuples a row is made of, in schema order after the key.
// commits: (author, date, message)
// tags:    (name, target_id, target_type, tagger, date, message)
// branches: (name, type, head_commit_id, head_commit_date)

/// The `commits` row a commit becomes, keyed by `spec_commit_key`.
pub open spec fn spec_commit_key(c: CommitData) -> Seq<char> {
    spec_truncate7(c.id@)
}

pub open spec fn spec_commit_cols(c: CommitData) -> (Option<Seq<char>>, Seq<char>, Option<
    Seq<char>,
>) {
    (opt_view(c.author), spec_time_text(c.time), opt_view(c.message))
}

/// The `tags` row key: the tag object's own hash for an annotated tag, the
/// target's hash for a lightweight one, truncated either way.
pub open spec fn spec_tag_key(t: TagData) -> Seq<char> {
    match t {
        TagData::Annotated { id, .. } => spec_truncate7(id@),
        TagData::Lightweight { id, .. } => spec_truncate7(id@),
    }
}

/// The `tags` row columns.  A lightweight tag targets itself, is always of
/// target type `commit`, and has no tagger, date or message; an annotated
/// tag's message is stored with any trailing signature block stripped.
pub open spec fn spec_tag_cols(t: TagData) -> (
    Option<Seq<char>>,
    Seq<char>,
    Option<Seq<char>>,
    Option<Seq<char>>,
    Option<Seq<char>>,
    Option<Seq<char>>,
) {
    match t {
        TagData::Annotated { id: _, name, target_id, target_type, tagger, tagger_time, message } => (
            opt_view(name),
            spec_truncate7(target_id@),
            opt_view(target_type),
            opt_view(tagger),
            match tagger_time {
                Option::Some(s) => Option::Some(spec_time_text(s)),
                Option::None => Option::None,
            },
            match message {
                Option::Some(m) => Option::Some(spec_strip_signature(m@)),
                Option::None => Option::None,
            },
        ),
        TagData::Lightweight { id, name } => (
            opt_view(name),
            spec_truncate7(id@),
            Option::Some("commit"@),
            Option::None,
            Option::None,
            Option::None,
        ),
    }
}

/// The text stored in the `type` column of a branch row.
pub open spec fn spec_kind_text(k: BranchKind) -> Seq<char> {
    match k {
        BranchKind::Local => "local"@,
        BranchKind::Remote => "remote"@,
    }
}

/// The `branches` row columns; an unresolvable head degrades both head
/// columns to null.
pub open spec fn spec_branch_cols(b: BranchData) -> (
    Option<Seq<char>>,
    Seq<char>,
    Option<Seq<char>>,
    Option<Seq<char>>,
) {
    (
        opt_view(b.name),
        spec_kind_text(b.kind),
        match b.head {
            Option::Some(h) => Option::Some(spec_truncate7(h.id@)),
            Option::None => Option::None,
        },
        match b.head {
            Option::Some(h) => Option::Some(spec_time_text(h.time)),
            Option::None => Option::None,
        },
    )
}

/// Insert-or-keep: the map gains the binding unless the key is already
/// bound, in which case the first-seen value is preserved.  This is the
/// idempotent insertion policy of the `commits` table.
pub open spec fn upsert_keep<V>(m: Map<Seq<char>, V>, k: Seq<char>, v: V) -> Map<Seq<char>, V> {
    if m.contains_key(k) {
        m
    } else {
        m.insert(k, v)
    }
}

/// A row as read back from the `commits` table.
#[derive(Debug, Clone)]
pub struct CommitRow {
    pub id: String,
    pub author: Option<String>,
    pub date: String,
    pub message: Option<String>,
}

/// A row as read back from the `tags` table.
#[derive(Debug, Clone)]
pub struct TagRow {
    pub id: String,
    pub name: Option<String>,
    pub target_id: String,
    pub target_type: Option<String>,
    pub tagger: Option<String>,
    pub date: Option<String>,
    pub message: Option<String>,
}

/// A row as read back from the `branches` table.
#[derive(Debug, Clone)]
pub struct BranchRow {
    pub name: Option<String>,
    pub btype: String,
    pub head_commit_id: Option<String>,
    pub head_commit_date: Option<String>,
}

/// The column tuple a read-back branch row stands for.
pub open spec fn spec_branch_row(r: BranchRow) -> (
    Option<Seq<char>>,
    Seq<char>,
    Option<Seq<char>>,
    Option<Seq<char>>,
) {
    (opt_view(r.name), r.btype@, opt_view(r.head_commit_id), opt_view(r.head_commit_date))
}

/// Copy an optional string, keeping its view.
pub(crate) fn clone_opt_string(o: &Option<String>) -> (r: Option<String>)
    ensures
        opt_view(r) == opt_view(*o),
{
    match o {
        Some(s) => Some(s.clone()),
        None => None,
    }
}

} // verus!
