use tusker_core::migration::{
    extract_pg_error, BackendError, MigrationAction, MigrationOperations, MigrationResult,
    MigrationRun, StepOutcome,
};

fn ok(rows: u64) -> StepOutcome {
    StepOutcome::Done { rows_affected: rows, duration_us: 1500 }
}

fn failed(message: &str) -> StepOutcome {
    StepOutcome::Failed {
        error: BackendError::Database {
            code: Some("42P01".to_string()),
            message: message.to_string(),
            detail: Some("detail".to_string()),
            hint: None,
        },
        duration_us: 700,
    }
}

/// Drives a run to its end. `outcome_of` says how the step with a given SQL
/// text (or `COMMIT` / `ROLLBACK`) goes.
fn drive(mut run: MigrationRun, outcome_of: &dyn Fn(&str) -> StepOutcome) -> (Vec<String>, MigrationResult) {
    let mut trace: Vec<String> = Vec::new();
    for _ in 0..1000 {
        match run.next_action() {
            MigrationAction::Execute(sql) => {
                let outcome = outcome_of(&sql);
                trace.push(sql);
                run.record(outcome);
            }
            MigrationAction::Commit => {
                trace.push("COMMIT".to_string());
                run.record(outcome_of("COMMIT"));
            }
            MigrationAction::Rollback => {
                trace.push("ROLLBACK".to_string());
                run.record(outcome_of("ROLLBACK"));
            }
            MigrationAction::Finish => {
                assert!(run.is_finished());
                return (trace, run.finish(9000));
            }
        }
    }
    panic!("the run did not finish");
}

fn statements(list: &[&str]) -> Vec<String> {
    list.iter().map(|s| s.to_string()).collect()
}

const SETUP: [&str; 4] = [
    "SET LOCAL lock_timeout = '5000ms'",
    "SET LOCAL statement_timeout = '30000ms'",
    "SET LOCAL idle_in_transaction_session_timeout = '60s'",
    "SET LOCAL application_name = 'tusker-migration'",
];

#[test]
fn dry_run_of_rename_then_alter_reports_both_ok_and_rolls_back() {
    let run = MigrationOperations::execute_migration(
        &statements(&["ALTER TABLE a RENAME TO b", "ALTER TABLE b ADD c int"]),
        true,
        None,
        None,
    );
    let (trace, result) = drive(run, &|_| ok(0));
    assert_eq!(
        trace,
        vec![
            SETUP[0],
            SETUP[1],
            SETUP[2],
            SETUP[3],
            "SAVEPOINT s0",
            "ALTER TABLE a RENAME TO b",
            "SAVEPOINT s1",
            "ALTER TABLE b ADD c int",
            "ROLLBACK",
        ]
    );
    assert!(result.ok);
    assert!(result.dry_run);
    assert!(!result.committed);
    assert_eq!(result.statements.len(), 2);
    assert!(result.statements[0].ok);
    assert!(result.statements[1].ok);
    assert_eq!(result.statements[0].sql, "ALTER TABLE a RENAME TO b");
    assert_eq!(result.statements[1].sql, "ALTER TABLE b ADD c int");
    assert_eq!(result.statements[0].rows_affected, Some(0));
    assert_eq!(result.statements[0].duration_us, 1500);
    assert!(result.statements[0].error.is_none());
    assert_eq!(result.duration_us, 9000);
    assert_eq!(result.lock_timeout_ms, 5000);
    assert_eq!(result.statement_timeout_ms, 30000);
}

#[test]
fn dry_run_goes_on_after_a_failure_and_restores_the_savepoint() {
    let run = MigrationOperations::execute_migration(
        &statements(&["  CREATE TABLE a (id int)  ", "   ", "BROKEN", "", "DROP TABLE a"]),
        true,
        Some(100),
        Some(200),
    );
    let (trace, result) = drive(run, &|sql| if sql == "BROKEN" { failed("syntax error") } else { ok(1) });
    assert_eq!(
        trace,
        vec![
            "SET LOCAL lock_timeout = '100ms'",
            "SET LOCAL statement_timeout = '200ms'",
            SETUP[2],
            SETUP[3],
            "SAVEPOINT s0",
            "CREATE TABLE a (id int)",
            "SAVEPOINT s2",
            "BROKEN",
            "ROLLBACK TO SAVEPOINT s2",
            "SAVEPOINT s4",
            "DROP TABLE a",
            "ROLLBACK",
        ]
    );
    assert!(!result.ok);
    assert!(!result.committed);
    assert_eq!(result.statements.len(), 3);
    assert_eq!(result.statements[0].sql, "CREATE TABLE a (id int)");
    assert!(result.statements[0].ok);
    assert!(!result.statements[1].ok);
    assert_eq!(result.statements[1].sql, "BROKEN");
    assert_eq!(result.statements[1].rows_affected, None);
    assert_eq!(result.statements[1].duration_us, 700);
    let error = result.statements[1].error.as_ref().unwrap();
    assert_eq!(error.code.as_deref(), Some("42P01"));
    assert_eq!(error.message, "syntax error");
    assert_eq!(error.detail.as_deref(), Some("detail"));
    assert_eq!(error.hint, None);
    assert!(result.statements[2].ok);
    assert_eq!(result.lock_timeout_ms, 100);
    assert_eq!(result.statement_timeout_ms, 200);
}

#[test]
fn apply_commits_when_all_statements_succeed() {
    let run = MigrationOperations::execute_migration(
        &statements(&["INSERT INTO t VALUES (1)", " ", "UPDATE t SET a = 2"]),
        false,
        None,
        None,
    );
    let (trace, result) = drive(run, &|_| ok(3));
    assert_eq!(
        trace,
        vec![
            SETUP[0],
            SETUP[1],
            SETUP[2],
            SETUP[3],
            "INSERT INTO t VALUES (1)",
            "UPDATE t SET a = 2",
            "COMMIT",
        ]
    );
    assert!(result.ok);
    assert!(!result.dry_run);
    assert!(result.committed);
    assert_eq!(result.statements.len(), 2);
    assert_eq!(result.statements[1].rows_affected, Some(3));
}

#[test]
fn apply_stops_at_the_first_failure_without_commit() {
    let run = MigrationOperations::execute_migration(
        &statements(&["A", "B", "C"]),
        false,
        None,
        None,
    );
    let (trace, result) = drive(run, &|sql| if sql == "B" { failed("no") } else { ok(1) });
    assert_eq!(trace[4..], ["A", "B", "ROLLBACK"]);
    assert!(!trace.contains(&"COMMIT".to_string()));
    assert!(!result.ok);
    assert!(!result.committed);
    assert_eq!(result.statements.len(), 2);
    assert!(result.statements[0].ok);
    assert!(!result.statements[1].ok);
}

#[test]
fn a_failed_commit_is_reported_as_a_statement() {
    let run = MigrationOperations::execute_migration(&statements(&["A"]), false, None, None);
    let (trace, result) = drive(run, &|sql| if sql == "COMMIT" { failed("could not commit") } else { ok(1) });
    assert_eq!(trace.last().unwrap(), "COMMIT");
    assert!(!result.ok);
    assert!(!result.committed);
    assert_eq!(result.statements.len(), 2);
    assert!(result.statements[0].ok);
    assert_eq!(result.statements[1].sql, "COMMIT");
    assert!(!result.statements[1].ok);
    assert_eq!(result.statements[1].duration_us, 0);
    assert_eq!(result.statements[1].rows_affected, None);
    assert_eq!(result.statements[1].error.as_ref().unwrap().message, "could not commit");
}

#[test]
fn a_failed_setup_statement_ends_the_run_with_that_single_failure() {
    for dry_run in [true, false] {
        let run = MigrationOperations::execute_migration(&statements(&["A", "B"]), dry_run, None, None);
        let (trace, result) =
            drive(run, &|sql| if sql == SETUP[1] { failed("bad timeout") } else { ok(0) });
        assert_eq!(trace, vec![SETUP[0], SETUP[1], "ROLLBACK"]);
        assert!(!result.ok);
        assert_eq!(result.dry_run, dry_run);
        assert!(!result.committed);
        assert_eq!(result.statements.len(), 1);
        assert_eq!(result.statements[0].sql, SETUP[1]);
        assert!(!result.statements[0].ok);
        assert_eq!(result.statements[0].duration_us, 0);
        assert_eq!(result.statements[0].error.as_ref().unwrap().message, "bad timeout");
    }
}

#[test]
fn a_run_without_statements_only_sets_up_and_ends() {
    let dry = MigrationOperations::execute_migration(&statements(&["", "  "]), true, None, None);
    let (trace, result) = drive(dry, &|_| ok(0));
    assert_eq!(trace, vec![SETUP[0], SETUP[1], SETUP[2], SETUP[3], "ROLLBACK"]);
    assert!(result.ok);
    assert!(!result.committed);
    assert!(result.statements.is_empty());
    let apply = MigrationOperations::execute_migration(&Vec::new(), false, None, None);
    let (trace, result) = drive(apply, &|_| ok(0));
    assert_eq!(trace, vec![SETUP[0], SETUP[1], SETUP[2], SETUP[3], "COMMIT"]);
    assert!(result.ok);
    assert!(result.committed);
}

#[test]
fn savepoint_failures_are_ignored() {
    let run = MigrationOperations::execute_migration(&statements(&["A"]), true, None, None);
    let (_, result) =
        drive(run, &|sql| if sql.starts_with("SAVEPOINT") { failed("ignored") } else { ok(2) });
    assert!(result.ok);
    assert_eq!(result.statements.len(), 1);
}

#[test]
fn driver_errors_are_extracted() {
    let server = BackendError::Database {
        code: Some("23505".to_string()),
        message: "duplicate key".to_string(),
        detail: None,
        hint: Some("use another".to_string()),
    };
    let e = extract_pg_error(&server);
    assert_eq!(e.code.as_deref(), Some("23505"));
    assert_eq!(e.message, "duplicate key");
    assert_eq!(e.detail, None);
    assert_eq!(e.hint.as_deref(), Some("use another"));
    let other = extract_pg_error(&BackendError::Other("pool timed out".to_string()));
    assert_eq!(other.code, None);
    assert_eq!(other.message, "pool timed out");
    assert_eq!(other.detail, None);
    assert_eq!(other.hint, None);
}
