use sha2::Digest;
use tusker_core::commit_store::{
    Commit, CommitChange, CommitStore, SaveCommitChange, SaveCommitRequest,
};

fn request() -> SaveCommitRequest {
    SaveCommitRequest {
        project_id: "P".to_string(),
        message: "m".to_string(),
        summary: "s".to_string(),
        changes: vec![SaveCommitChange {
            change_type: "insert".to_string(),
            schema_name: "public".to_string(),
            table_name: "t".to_string(),
            data: "{}".to_string(),
            original_data: None,
            sql: "INSERT...".to_string(),
        }],
    }
}

fn commit(id: &str, created_at: &str) -> Commit {
    Commit {
        id: id.to_string(),
        parent_id: None,
        message: String::new(),
        summary: String::new(),
        created_at: created_at.to_string(),
        change_count: 0,
    }
}

fn change(id: i64, commit_id: &str, sort_order: i64) -> CommitChange {
    CommitChange {
        id,
        commit_id: commit_id.to_string(),
        change_type: "update".to_string(),
        schema_name: "public".to_string(),
        table_name: "t".to_string(),
        data: "{}".to_string(),
        original_data: Some("{}".to_string()),
        sql: format!("-- {}", id),
        sort_order,
    }
}

fn is_hex64(s: &str) -> bool {
    s.len() == 64 && s.chars().all(|c| c.is_ascii_digit() || ('a'..='f').contains(&c))
}

#[test]
fn second_commit_has_the_first_as_parent() {
    let first = CommitStore::save_commit(&request(), None);
    assert_eq!(first.parent_id, None);
    assert!(is_hex64(&first.id));
    assert_eq!(first.message, "m");
    assert_eq!(first.summary, "s");
    assert_eq!(first.change_count, 1);
    let latest = CommitStore::get_latest_commit_id(&vec![commit(&first.id, &first.created_at)]);
    assert_eq!(latest.as_deref(), Some(first.id.as_str()));
    let second = CommitStore::save_commit(&request(), latest);
    assert_eq!(second.parent_id.as_deref(), Some(first.id.as_str()));
    assert!(is_hex64(&second.id));
    assert_ne!(second.id, first.id);
}

#[test]
fn commit_id_is_the_sha256_of_parent_timestamp_and_statements() {
    let statements = vec!["INSERT INTO t VALUES (1)".to_string(), "DELETE FROM t".to_string()];
    let root = CommitStore::generate_hash(&None, "2024-01-01T00:00:00+00:00", &statements);
    let expected_root = hex::encode(sha2::Sha256::digest(
        "root2024-01-01T00:00:00+00:00INSERT INTO t VALUES (1)DELETE FROM t".as_bytes(),
    ));
    assert_eq!(root, expected_root);
    let child = CommitStore::generate_hash(&Some("abc".to_string()), "é", &Vec::new());
    assert_eq!(child, hex::encode(sha2::Sha256::digest("abcé".as_bytes())));
    assert_eq!(
        CommitStore::generate_hash(&Some(String::new()), "", &Vec::new()),
        "e3b0c44298fc1c149afbf4c8996fb92427ae41e4649b934ca495991b7852b855"
    );
}

#[test]
fn commit_id_is_that_of_the_saved_commit() {
    let saved = CommitStore::save_commit(&request(), Some("parent".to_string()));
    let again = CommitStore::generate_hash(
        &Some("parent".to_string()),
        &saved.created_at,
        &vec!["INSERT...".to_string()],
    );
    assert_eq!(saved.id, again);
}

#[test]
fn commits_are_listed_newest_first() {
    let commits = vec![
        commit("b", "2024-02-01T00:00:00+00:00"),
        commit("d", "2024-04-01T00:00:00+00:00"),
        commit("a", "2024-01-01T00:00:00+00:00"),
        commit("c", "2024-03-01T00:00:00+00:00"),
        commit("c2", "2024-03-01T00:00:00+00:00"),
    ];
    let latest = CommitStore::get_latest_commit_id(&commits);
    assert_eq!(latest.as_deref(), Some("d"));
    let sorted = CommitStore::get_commits(commits);
    let ids: Vec<&str> = sorted.iter().map(|c| c.id.as_str()).collect();
    assert_eq!(ids, vec!["d", "c2", "c", "b", "a"]);
    assert!(CommitStore::get_commits(Vec::new()).is_empty());
    assert_eq!(CommitStore::get_latest_commit_id(&Vec::new()), None);
}

#[test]
fn latest_commit_is_the_first_of_the_list() {
    let commits = vec![
        commit("x", "2024-03-01T00:00:00+00:00"),
        commit("y", "2024-03-01T00:00:00+00:00"),
        commit("z", "2024-01-01T00:00:00+00:00"),
    ];
    let latest = CommitStore::get_latest_commit_id(&commits);
    let sorted = CommitStore::get_commits(commits);
    assert_eq!(latest.as_deref(), Some(sorted[0].id.as_str()));
}

#[test]
fn commit_detail_orders_changes_and_refuses_unknown_ids() {
    let commits = vec![commit("a", "1"), commit("b", "2")];
    let changes = vec![change(1, "b", 2), change(2, "a", 0), change(3, "b", 0), change(4, "b", 1), change(5, "b", 1)];
    let detail = CommitStore::get_commit_detail("b", commits, changes).unwrap();
    assert_eq!(detail.commit.id, "b");
    let ids: Vec<i64> = detail.changes.iter().map(|c| c.id).collect();
    assert_eq!(ids, vec![3, 4, 5, 1]);
    let missing = CommitStore::get_commit_detail("zz", vec![commit("a", "1")], Vec::new());
    assert_eq!(missing.unwrap_err(), "Commit not found: Query returned no rows");
}

#[test]
fn change_rows_carry_commit_id_and_position() {
    let saved = CommitStore::save_commit(&request(), None);
    let row = CommitStore::change_row(&saved, &request().changes[0], 4);
    assert_eq!(row.commit_id, saved.id);
    assert_eq!(row.sort_order, 4);
    assert_eq!(row.change_type, "insert");
    assert_eq!(row.schema_name, "public");
    assert_eq!(row.table_name, "t");
    assert_eq!(row.data, "{}");
    assert_eq!(row.original_data, None);
    assert_eq!(row.sql, "INSERT...");
}
