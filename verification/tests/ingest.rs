// End-to-end tests of the ingestion engine against the real SQLite store.

use githist::data::{
    truncate_id, BranchData, BranchHead, BranchKind, CommitData, IngestError, ReaderError, TagData,
};
use githist::store::{init_db, traverse, try_init_db, try_traverse};

const C1_ID: &str = "a1a1a1a1b2b2b2b2c3c3c3c3d4d4d4d4e5e5e5e5";
const C2_ID: &str = "b2b2b2b2c3c3c3c3d4d4d4d4e5e5e5e5f6f6f6f6";
const C3_ID: &str = "c3c3c3c3d4d4d4d4e5e5e5e5f6f6f6f6a1a1a1a1";
const V1_ID: &str = "d4d4d4d4e5e5e5e5f6f6f6f6a1a1a1a1b2b2b2b2";

const C1_TIME: i64 = 1700000000;
const C2_TIME: i64 = 1700000100;
const C3_TIME: i64 = 1700000200;

fn commit(id: &str, author: &str, time: i64, message: &str) -> CommitData {
    CommitData {
        id: id.to_string(),
        author: Some(author.to_string()),
        time,
        message: Some(message.to_string()),
    }
}

fn scenario_commits() -> Vec<CommitData> {
    vec![
        commit(C1_ID, "Alice", C1_TIME, "first\n"),
        commit(C2_ID, "Bob", C2_TIME, "second\n"),
        commit(C3_ID, "Alice", C3_TIME, "third\n"),
    ]
}

fn scenario_tags() -> Vec<TagData> {
    vec![
        TagData::Annotated {
            id: V1_ID.to_string(),
            name: Some("v1".to_string()),
            target_id: C2_ID.to_string(),
            target_type: Some("commit".to_string()),
            tagger: Some("Alice".to_string()),
            tagger_time: Some(C2_TIME),
            message: Some("release\n-----BEGIN PGP SIGNATURE-----\nabc\n".to_string()),
        },
        TagData::Lightweight {
            id: C1_ID.to_string(),
            name: Some("v0".to_string()),
        },
    ]
}

fn scenario_branches() -> Vec<BranchData> {
    vec![BranchData {
        name: Some("main".to_string()),
        kind: BranchKind::Local,
        head: Some(BranchHead {
            id: C3_ID.to_string(),
            time: C3_TIME,
        }),
    }]
}

#[test]
fn scenario_three_commits_two_tags_one_branch() {
    let mut store = init_db(&scenario_commits(), &scenario_tags(), &scenario_branches()).unwrap();

    assert_eq!(store.commit_count().unwrap(), 3);
    assert_eq!(store.tag_count().unwrap(), 2);

    let v1 = store.get_tag(&truncate_id(V1_ID)).unwrap().unwrap();
    assert_eq!(v1.name.as_deref(), Some("v1"));
    assert_eq!(v1.message.as_deref(), Some("release"));
    assert_eq!(v1.target_id, truncate_id(C2_ID));

    let v0 = store.get_tag(&truncate_id(C1_ID)).unwrap().unwrap();
    assert_eq!(v0.name.as_deref(), Some("v0"));
    assert_eq!(v0.target_type.as_deref(), Some("commit"));

    let branches = store.get_branches().unwrap();
    assert_eq!(branches.len(), 1);
    assert_eq!(branches[0].name.as_deref(), Some("main"));
    assert_eq!(branches[0].btype, "local");
    assert_eq!(branches[0].head_commit_id.as_deref(), Some(truncate_id(C3_ID).as_str()));

    // the initial prompt query of a session: the newest commit is the tip
    let (headers, rows) = store
        .run_query("SELECT id FROM commits ORDER BY date DESC LIMIT 1")
        .unwrap();
    assert_eq!(headers, vec!["id".to_string()]);
    assert_eq!(rows.len(), 1);
    let newest = match &rows[0][0] {
        rusqlite::types::Value::Text(s) => s.clone(),
        other => panic!("expected a text id, got {:?}", other),
    };
    assert_eq!(newest, truncate_id(C3_ID));
    let c3 = store.get_commit(&newest).unwrap().unwrap();
    assert_eq!(c3.author.as_deref(), Some("Alice"));
    assert_eq!(c3.message.as_deref(), Some("third\n"));
}

#[test]
fn commit_insertion_is_idempotent_first_values_win() {
    let commits = vec![commit(C1_ID, "Alice", C1_TIME, "original\n")];
    let mut store = init_db(&commits, &vec![], &vec![]).unwrap();

    // an overlapping traversal hands in the same identifier with other fields
    let overlap = vec![
        commit(C1_ID, "Mallory", C1_TIME + 5, "rewritten\n"),
        commit(C2_ID, "Bob", C2_TIME, "new\n"),
    ];
    traverse(&mut store, Ok(overlap)).unwrap();

    assert_eq!(store.commit_count().unwrap(), 2);
    let row = store.get_commit(&truncate_id(C1_ID)).unwrap().unwrap();
    assert_eq!(row.author.as_deref(), Some("Alice"));
    assert_eq!(row.message.as_deref(), Some("original\n"));
    let row2 = store.get_commit(&truncate_id(C2_ID)).unwrap().unwrap();
    assert_eq!(row2.author.as_deref(), Some("Bob"));
}

#[test]
fn identifier_fields_are_exactly_seven_characters() {
    let store = init_db(&scenario_commits(), &scenario_tags(), &scenario_branches()).unwrap();

    let c = store.get_commit(&truncate_id(C1_ID)).unwrap().unwrap();
    assert_eq!(c.id.len(), 7);
    let t = store.get_tag(&truncate_id(V1_ID)).unwrap().unwrap();
    assert_eq!(t.id.len(), 7);
    assert_eq!(t.target_id.len(), 7);
    let b = &store.get_branches().unwrap()[0];
    assert_eq!(b.head_commit_id.as_deref().unwrap().len(), 7);
    assert_eq!(truncate_id(C1_ID), "a1a1a1a");
}

#[test]
fn lightweight_tag_row_shape() {
    let tags = vec![TagData::Lightweight {
        id: C1_ID.to_string(),
        name: None,
    }];
    let store = init_db(&scenario_commits(), &tags, &vec![]).unwrap();
    let row = store.get_tag(&truncate_id(C1_ID)).unwrap().unwrap();
    assert_eq!(row.target_type.as_deref(), Some("commit"));
    assert!(row.tagger.is_none());
    assert!(row.date.is_none());
    assert!(row.message.is_none());
    assert!(row.name.is_none());
    assert_eq!(row.target_id, row.id);
}

#[test]
fn annotated_tag_row_keeps_distinct_target() {
    let store = init_db(&scenario_commits(), &scenario_tags(), &vec![]).unwrap();
    let row = store.get_tag(&truncate_id(V1_ID)).unwrap().unwrap();
    assert_ne!(row.id, row.target_id);
    assert_eq!(row.tagger.as_deref(), Some("Alice"));
    assert!(row.date.is_some());
}

#[test]
fn traverse_fails_fast_on_unresolved_reference() {
    let mut store = init_db(&scenario_commits(), &vec![], &vec![]).unwrap();

    let err = traverse(&mut store, Err(ReaderError::NotFound)).unwrap_err();
    assert!(matches!(err, IngestError::Reader(ReaderError::NotFound)));
    assert_eq!(store.commit_count().unwrap(), 3);

    let err = traverse(&mut store, Err(ReaderError::Ambiguous)).unwrap_err();
    assert!(matches!(err, IngestError::Reader(ReaderError::Ambiguous)));
    assert_eq!(store.commit_count().unwrap(), 3);
}

#[test]
fn duplicate_tag_identifier_aborts_with_store_error() {
    let tags = vec![
        TagData::Lightweight {
            id: C1_ID.to_string(),
            name: Some("one".to_string()),
        },
        TagData::Lightweight {
            id: C1_ID.to_string(),
            name: Some("two".to_string()),
        },
    ];
    let err = init_db(&vec![], &tags, &vec![]).unwrap_err();
    assert!(matches!(err, IngestError::Store(_)));
}

#[test]
fn branch_name_collision_keeps_both_rows() {
    let branches = vec![
        BranchData {
            name: Some("dev".to_string()),
            kind: BranchKind::Local,
            head: Some(BranchHead { id: C1_ID.to_string(), time: C1_TIME }),
        },
        BranchData {
            name: Some("dev".to_string()),
            kind: BranchKind::Remote,
            head: None,
        },
    ];
    let store = init_db(&vec![], &vec![], &branches).unwrap();
    let rows = store.get_branches().unwrap();
    assert_eq!(rows.len(), 2);
    let mut kinds: Vec<&str> = rows.iter().map(|r| r.btype.as_str()).collect();
    kinds.sort();
    assert_eq!(kinds, vec!["local", "remote"]);
    let unborn = rows.iter().find(|r| r.btype == "remote").unwrap();
    assert!(unborn.head_commit_id.is_none());
    assert!(unborn.head_commit_date.is_none());
}

#[test]
fn empty_repository_initializes_empty_store() {
    let store = init_db(&vec![], &vec![], &vec![]).unwrap();
    assert_eq!(store.commit_count().unwrap(), 0);
    assert_eq!(store.tag_count().unwrap(), 0);
    assert!(store.get_branches().unwrap().is_empty());
    assert!(store.get_commit("a1a1a1a").unwrap().is_none());
    assert!(store.get_tag("a1a1a1a").unwrap().is_none());
}

#[test]
fn dates_are_rendered_as_utc_strings() {
    // chrono's documented example: 1431648000 renders as this exact text
    let commits = vec![commit(C1_ID, "Alice", 1431648000, "dated\n")];
    let store = init_db(&commits, &vec![], &vec![]).unwrap();
    let row = store.get_commit(&truncate_id(C1_ID)).unwrap().unwrap();
    assert_eq!(row.date, "2015-05-15 00:00:00 UTC");
}

#[test]
fn absent_fields_stay_absent() {
    let commits = vec![CommitData {
        id: C1_ID.to_string(),
        author: None,
        time: C1_TIME,
        message: None,
    }];
    let store = init_db(&commits, &vec![], &vec![]).unwrap();
    let row = store.get_commit(&truncate_id(C1_ID)).unwrap().unwrap();
    assert!(row.author.is_none());
    assert!(row.message.is_none());
}

#[test]
fn guarded_entry_points_refuse_invalid_batches() {
    // an identifier shorter than the truncated form
    let bad_id = vec![commit("abc", "Alice", C1_TIME, "short\n")];
    assert!(try_init_db(&bad_id, &vec![], &vec![]).is_none());

    // a timestamp beyond the calendar's range
    let bad_time = vec![commit(C1_ID, "Alice", i64::MAX, "late\n")];
    assert!(try_init_db(&bad_time, &vec![], &vec![]).is_none());

    let good = scenario_commits();
    let store = try_init_db(&good, &vec![], &vec![]).unwrap().unwrap();
    assert_eq!(store.commit_count().unwrap(), 3);

    let mut store = store;
    assert!(try_traverse(&mut store, Ok(bad_time)).is_none());
    assert_eq!(store.commit_count().unwrap(), 3);
    let done = try_traverse(&mut store, Err(ReaderError::NotFound)).unwrap();
    assert!(matches!(
        done.unwrap_err(),
        IngestError::Reader(ReaderError::NotFound)
    ));
}

#[test]
fn uncompilable_statement_fails_and_changes_nothing() {
    let mut store = init_db(&scenario_commits(), &vec![], &vec![]).unwrap();
    let err = store.run_query("SELEC id FRM commits").unwrap_err();
    assert!(matches!(err, IngestError::Store(_)));
    assert_eq!(store.commit_count().unwrap(), 3);
    let row = store.get_commit(&truncate_id(C1_ID)).unwrap().unwrap();
    assert_eq!(row.author.as_deref(), Some("Alice"));
}

#[test]
fn session_survives_a_dropped_table() {
    let mut store = init_db(&scenario_commits(), &vec![], &vec![]).unwrap();
    store.run_query("DROP TABLE commits").unwrap();
    // the store's integrity is gone: typed operations now answer with the
    // engine's own error, and the session goes on
    let err = store.commit_count().unwrap_err();
    assert!(matches!(err, IngestError::Store(_)));
    let err = traverse(&mut store, Ok(vec![commit(C2_ID, "Bob", C2_TIME, "late\n")]))
        .unwrap_err();
    assert!(matches!(err, IngestError::Store(_)));
    assert_eq!(store.tag_count().unwrap(), 0);
}
