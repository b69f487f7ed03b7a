//! Relational snapshots of version-control history.
//!
//! The library ingests the objects of a repository's history — commits,
//! annotated and lightweight tags, and branch references — into an in-memory
//! SQLite store under a fixed, normalized schema.  The ingestion policies are
//! stated as contracts and verified: commit insertion is idempotent (a
//! repeated identifier is silently dropped, first-seen fields win), tag
//! insertion fails fast on a duplicate identifier, branches are appended with
//! no uniqueness constraint, identifier columns always hold the first seven
//! characters of the full object hash, and annotated tag messages are stored
//! with any trailing PGP signature block stripped.
//!
//! Reading the repository itself (a disk-bound concern) is left to the
//! caller, which hands the library plain values; the embedded SQLite engine
//! and the calendar rendering of timestamps are called through a small
//! trusted boundary in `db` and `timefmt`.

pub mod data;
pub mod db;
pub mod sig;
pub mod store;
pub mod timefmt;
