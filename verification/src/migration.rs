//! The migration executor: a batch of statements run inside one transaction.
//!
//! The executor is a state machine. It never talks to the server itself: it
//! says which step comes next (`MigrationRun::next_action`), the caller
//! performs that step on the transaction and reports how it went
//! (`MigrationRun::record`), until the run is finished and gives its report
//! (`MigrationRun::finish`).
//!
//! A run first sets the session-local timeouts. Applying, it then executes
//! each non-blank statement, stops at the first failure, and commits when all
//! went well. In a dry run every statement is tried behind a savepoint of its
//! own, which is rolled back to only when the statement failed, so that later
//! statements see what earlier ones did; at the end everything is rolled
//! back.

use vstd::prelude::*;
use crate::text::{decimal, int_to_decimal, trim, trimmed};

verus! {

/// The lock timeout where the request names none, in milliseconds.
pub const DEFAULT_LOCK_TIMEOUT_MS: u32 = 5000;

/// The statement timeout where the request names none, in milliseconds.
pub const DEFAULT_STATEMENT_TIMEOUT_MS: u32 = 30000;

/// The number of statements that prepare the transaction.
pub const SETUP_STEPS: usize = 4;

// ---------------------------------------------------------------------------
// Data
// ---------------------------------------------------------------------------

/// A request to run a migration on a connection.
#[derive(Debug)]
pub struct MigrationRequest {
    pub connection_id: String,
    pub statements: Vec<String>,
    pub dry_run: bool,
    pub lock_timeout_ms: Option<u32>,
    pub statement_timeout_ms: Option<u32>,
}

/// What is known of a failed statement.
#[derive(Debug)]
pub struct StatementError {
    /// The SQLSTATE code, where the server gave one.
    pub code: Option<String>,
    pub message: String,
    pub detail: Option<String>,
    pub hint: Option<String>,
}

/// How one statement went.
#[derive(Debug)]
pub struct StatementResult {
    pub sql: String,
    pub ok: bool,
    /// The time the statement took, in microseconds.
    pub duration_us: u64,
    pub rows_affected: Option<u64>,
    pub error: Option<StatementError>,
}

/// The report of a run.
#[derive(Debug)]
pub struct MigrationResult {
    pub ok: bool,
    pub dry_run: bool,
    pub committed: bool,
    /// The time the whole run took, in microseconds.
    pub duration_us: u64,
    pub statements: Vec<StatementResult>,
    pub lock_timeout_ms: u32,
    pub statement_timeout_ms: u32,
}

/// A failure as the database driver reports it.
#[derive(Debug)]
pub enum BackendError {
    /// The server refused the statement.
    Database { code: Option<String>, message: String, detail: Option<String>, hint: Option<String> },
    /// Anything else, with its message.
    Other(String),
}

/// How a step on the transaction went.
#[derive(Debug)]
pub enum StepOutcome {
    Done { rows_affected: u64, duration_us: u64 },
    Failed { error: BackendError, duration_us: u64 },
}

/// The next step on the transaction.
#[derive(Debug)]
pub enum MigrationAction {
    /// Execute this SQL text and report the outcome.
    Execute(String),
    /// Commit the transaction and report the outcome.
    Commit,
    /// Roll the transaction back; the outcome is of no interest.
    Rollback,
    /// Nothing more to do: the report is ready.
    Finish,
}

/// Where a run stands: the step whose outcome it waits for.
#[derive(Debug, Clone, Copy, PartialEq, Eq)]
pub enum Phase {
    /// The setup statement of this number.
    Setup(usize),
    /// The savepoint before the statement of this index.
    Savepoint(usize),
    /// The statement of this index.
    Statement(usize),
    /// The rollback to the savepoint of the statement of this index.
    Restore(usize),
    Commit,
    Rollback,
    Finished,
}

/// A migration in progress.
pub struct MigrationRun {
    statements: Vec<String>,
    dry_run: bool,
    lock_timeout_ms: u32,
    statement_timeout_ms: u32,
    phase: Phase,
    results: Vec<StatementResult>,
    all_ok: bool,
    committed: bool,
    setup_failed: bool,
}

pub struct MigrationOperations;

// ---------------------------------------------------------------------------
// The mathematical values
// ---------------------------------------------------------------------------

/// The text of an optional string.
pub open spec fn optional_text(o: Option<String>) -> Option<Seq<char>> {
    match o {
        Some(s) => Some(s@),
        None => None,
    }
}

/// What a `StatementError` stands for.
pub struct ErrorModel {
    pub code: Option<Seq<char>>,
    pub message: Seq<char>,
    pub detail: Option<Seq<char>>,
    pub hint: Option<Seq<char>>,
}

/// What a `StatementResult` stands for.
pub struct ResultModel {
    pub sql: Seq<char>,
    pub ok: bool,
    pub duration_us: u64,
    pub rows_affected: Option<u64>,
    pub error: Option<ErrorModel>,
}

/// What a `StepOutcome` stands for.
pub enum OutcomeModel {
    Done { rows_affected: u64, duration_us: u64 },
    Failed { error: ErrorModel, duration_us: u64 },
}

/// What a `MigrationAction` stands for.
pub enum ActionModel {
    Execute(Seq<char>),
    Commit,
    Rollback,
    Finish,
}

/// What a `MigrationResult` stands for.
pub struct ReportModel {
    pub ok: bool,
    pub dry_run: bool,
    pub committed: bool,
    pub duration_us: u64,
    pub statements: Seq<ResultModel>,
    pub lock_timeout_ms: u32,
    pub statement_timeout_ms: u32,
}

/// What a `MigrationRun` stands for.
pub struct RunModel {
    /// The statements of the request, each trimmed.
    pub statements: Seq<Seq<char>>,
    pub dry_run: bool,
    pub lock_timeout_ms: u32,
    pub statement_timeout_ms: u32,
    pub phase: Phase,
    pub results: Seq<ResultModel>,
    pub all_ok: bool,
    pub committed: bool,
    pub setup_failed: bool,
}

impl View for StatementError {
    type V = ErrorModel;

    open spec fn view(&self) -> ErrorModel {
        ErrorModel {
            code: optional_text(self.code),
            message: self.message@,
            detail: optional_text(self.detail),
            hint: optional_text(self.hint),
        }
    }
}

impl View for StatementResult {
    type V = ResultModel;

    open spec fn view(&self) -> ResultModel {
        ResultModel {
            sql: self.sql@,
            ok: self.ok,
            duration_us: self.duration_us,
            rows_affected: self.rows_affected,
            error: match self.error {
                Some(e) => Some(e@),
                None => None,
            },
        }
    }
}

/// What a failure of the driver says of a statement: the server's code,
/// message, detail and hint where the server refused it, the message alone
/// otherwise.
pub open spec fn extracted(e: BackendError) -> ErrorModel {
    match e {
        BackendError::Database { code, message, detail, hint } => ErrorModel {
            code: optional_text(code),
            message: message@,
            detail: optional_text(detail),
            hint: optional_text(hint),
        },
        BackendError::Other(message) => ErrorModel {
            code: None,
            message: message@,
            detail: None,
            hint: None,
        },
    }
}

impl View for StepOutcome {
    type V = OutcomeModel;

    open spec fn view(&self) -> OutcomeModel {
        match *self {
            StepOutcome::Done { rows_affected, duration_us } => OutcomeModel::Done {
                rows_affected,
                duration_us,
            },
            StepOutcome::Failed { error, duration_us } => OutcomeModel::Failed {
                error: extracted(error),
                duration_us,
            },
        }
    }
}

impl View for MigrationAction {
    type V = ActionModel;

    open spec fn view(&self) -> ActionModel {
        match *self {
            MigrationAction::Execute(sql) => ActionModel::Execute(sql@),
            MigrationAction::Commit => ActionModel::Commit,
            MigrationAction::Rollback => ActionModel::Rollback,
            MigrationAction::Finish => ActionModel::Finish,
        }
    }
}

/// The models of a list of statement results.
pub open spec fn result_models(results: Seq<StatementResult>) -> Seq<ResultModel> {
    Seq::new(results.len(), |i: int| results[i]@)
}

impl View for MigrationResult {
    type V = ReportModel;

    open spec fn view(&self) -> ReportModel {
        ReportModel {
            ok: self.ok,
            dry_run: self.dry_run,
            committed: self.committed,
            duration_us: self.duration_us,
            statements: result_models(self.statements@),
            lock_timeout_ms: self.lock_timeout_ms,
            statement_timeout_ms: self.statement_timeout_ms,
        }
    }
}

impl View for MigrationRun {
    type V = RunModel;

    closed spec fn view(&self) -> RunModel {
        RunModel {
            statements: crate::text::texts(self.statements@),
            dry_run: self.dry_run,
            lock_timeout_ms: self.lock_timeout_ms,
            statement_timeout_ms: self.statement_timeout_ms,
            phase: self.phase,
            results: result_models(self.results@),
            all_ok: self.all_ok,
            committed: self.committed,
            setup_failed: self.setup_failed,
        }
    }
}

// ---------------------------------------------------------------------------
// The machine
// ---------------------------------------------------------------------------

/// The statements of a request, each trimmed.
pub open spec fn trimmed_all(statements: Seq<String>) -> Seq<Seq<char>> {
    Seq::new(statements.len(), |i: int| trimmed(statements[i]@))
}

/// The setup statement of number `k`.
pub open spec fn setup_sql(k: int, lock_timeout_ms: u32, statement_timeout_ms: u32) -> Seq<char> {
    if k == 0 {
        "SET LOCAL lock_timeout = '"@ + decimal(lock_timeout_ms as int) + "ms'"@
    } else if k == 1 {
        "SET LOCAL statement_timeout = '"@ + decimal(statement_timeout_ms as int) + "ms'"@
    } else if k == 2 {
        "SET LOCAL idle_in_transaction_session_timeout = '60s'"@
    } else {
        "SET LOCAL application_name = 'tusker-migration'"@
    }
}

/// The name of the savepoint of the statement of index `i`.
pub open spec fn savepoint_name(i: int) -> Seq<char> {
    "s"@ + decimal(i)
}

/// The first index from `from` on whose statement is not empty, or the number
/// of statements where there is none.
pub open spec fn skip_blank(statements: Seq<Seq<char>>, from: int) -> int
    decreases statements.len() - from,
{
    if from < 0 || from >= statements.len() {
        statements.len() as int
    } else if statements[from].len() > 0 {
        from
    } else {
        skip_blank(statements, from + 1)
    }
}

/// The statements among the first `upto` that are not empty, in order.
pub open spec fn nonblank(statements: Seq<Seq<char>>, upto: int) -> Seq<Seq<char>>
    decreases upto,
{
    if upto <= 0 {
        Seq::empty()
    } else if statements[upto - 1].len() > 0 {
        nonblank(statements, upto - 1).push(statements[upto - 1])
    } else {
        nonblank(statements, upto - 1)
    }
}

/// The SQL texts of a list of results.
pub open spec fn sql_texts(results: Seq<ResultModel>) -> Seq<Seq<char>> {
    Seq::new(results.len(), |i: int| results[i].sql)
}

/// Every result is a success.
pub open spec fn all_succeeded(results: Seq<ResultModel>) -> bool {
    forall|k: int| 0 <= k < results.len() ==> (#[trigger] results[k]).ok
}

/// The entry for a step that succeeded.
pub open spec fn success_entry(sql: Seq<char>, rows_affected: u64, duration_us: u64) -> ResultModel {
    ResultModel { sql, ok: true, duration_us, rows_affected: Some(rows_affected), error: None }
}

/// The entry for a step that failed. A setup statement and the commit are not
/// timed: their entries hold zero as the duration.
pub open spec fn failure_entry(sql: Seq<char>, error: ErrorModel, duration_us: u64) -> ResultModel {
    ResultModel { sql, ok: false, duration_us, rows_affected: None, error: Some(error) }
}

impl OutcomeModel {
    /// The entry that records this outcome for the statement `sql`.
    pub open spec fn entry(self, sql: Seq<char>) -> ResultModel {
        match self {
            OutcomeModel::Done { rows_affected, duration_us } => success_entry(
                sql,
                rows_affected,
                duration_us,
            ),
            OutcomeModel::Failed { error, duration_us } => failure_entry(sql, error, duration_us),
        }
    }
}

impl RunModel {
    /// A run at its start.
    pub open spec fn start(
        statements: Seq<Seq<char>>,
        dry_run: bool,
        lock_timeout_ms: u32,
        statement_timeout_ms: u32,
    ) -> RunModel {
        RunModel {
            statements,
            dry_run,
            lock_timeout_ms,
            statement_timeout_ms,
            phase: Phase::Setup(0),
            results: Seq::empty(),
            all_ok: true,
            committed: false,
            setup_failed: false,
        }
    }

    /// Where the run goes on once the statements before `from` are dealt
    /// with: to the next statement that is not empty (in a dry run, to its
    /// savepoint), or to the end of the transaction.
    pub open spec fn resume(self, from: int) -> Phase {
        let i = skip_blank(self.statements, from);
        if i < self.statements.len() {
            if self.dry_run {
                Phase::Savepoint(i as usize)
            } else {
                Phase::Statement(i as usize)
            }
        } else if self.dry_run {
            Phase::Rollback
        } else {
            Phase::Commit
        }
    }

    /// The step the run asks for.
    pub open spec fn action(self) -> ActionModel {
        match self.phase {
            Phase::Setup(k) => ActionModel::Execute(
                setup_sql(k as int, self.lock_timeout_ms, self.statement_timeout_ms),
            ),
            Phase::Savepoint(i) => ActionModel::Execute("SAVEPOINT "@ + savepoint_name(i as int)),
            Phase::Statement(i) => ActionModel::Execute(self.statements[i as int]),
            Phase::Restore(i) => ActionModel::Execute(
                "ROLLBACK TO SAVEPOINT "@ + savepoint_name(i as int),
            ),
            Phase::Commit => ActionModel::Commit,
            Phase::Rollback => ActionModel::Rollback,
            Phase::Finished => ActionModel::Finish,
        }
    }

    /// The run after the step it asked for went as `outcome` says.
    pub open spec fn record(self, outcome: OutcomeModel) -> RunModel {
        match self.phase {
            Phase::Setup(k) => match outcome {
                OutcomeModel::Done { .. } => if k + 1 < SETUP_STEPS {
                    RunModel { phase: Phase::Setup((k + 1) as usize), ..self }
                } else {
                    RunModel { phase: self.resume(0), ..self }
                },
                OutcomeModel::Failed { error, .. } => RunModel {
                    phase: Phase::Rollback,
                    results: seq![
                        failure_entry(
                            setup_sql(k as int, self.lock_timeout_ms, self.statement_timeout_ms),
                            error,
                            0,
                        ),
                    ],
                    all_ok: false,
                    setup_failed: true,
                    ..self
                },
            },
            Phase::Savepoint(i) => RunModel { phase: Phase::Statement(i), ..self },
            Phase::Statement(i) => match outcome {
                OutcomeModel::Done { .. } => RunModel {
                    phase: self.resume(i + 1),
                    results: self.results.push(outcome.entry(self.statements[i as int])),
                    ..self
                },
                OutcomeModel::Failed { .. } => RunModel {
                    phase: if self.dry_run {
                        Phase::Restore(i)
                    } else {
                        Phase::Rollback
                    },
                    results: self.results.push(outcome.entry(self.statements[i as int])),
                    all_ok: false,
                    ..self
                },
            },
            Phase::Restore(i) => RunModel { phase: self.resume(i + 1), ..self },
            Phase::Commit => match outcome {
                OutcomeModel::Done { .. } => RunModel {
                    phase: Phase::Finished,
                    committed: true,
                    ..self
                },
                OutcomeModel::Failed { error, .. } => RunModel {
                    phase: Phase::Finished,
                    results: self.results.push(failure_entry("COMMIT"@, error, 0)),
                    all_ok: false,
                    ..self
                },
            },
            Phase::Rollback => RunModel { phase: Phase::Finished, ..self },
            Phase::Finished => self,
        }
    }

    /// The report of the run, which took `duration_us` in all.
    pub open spec fn report(self, duration_us: u64) -> ReportModel {
        ReportModel {
            ok: self.all_ok,
            dry_run: self.dry_run,
            committed: self.committed,
            duration_us,
            statements: self.results,
            lock_timeout_ms: self.lock_timeout_ms,
            statement_timeout_ms: self.statement_timeout_ms,
        }
    }

    /// The results so far are those of the non-empty statements among the
    /// first `upto`, one each, in order.
    pub open spec fn covers(self, upto: int) -> bool {
        sql_texts(self.results) == nonblank(self.statements, upto)
    }

    /// What holds of every run, whatever the outcomes were.
    pub open spec fn wf(self) -> bool {
        let n = self.statements.len() as int;
        &&& n <= usize::MAX
        &&& self.all_ok == all_succeeded(self.results)
        &&& self.committed ==> self.phase == Phase::Finished && !self.dry_run && self.all_ok
            && !self.setup_failed && self.covers(n)
        &&& !self.dry_run ==> forall|k: int|
            0 <= k < self.results.len() - 1 ==> (#[trigger] self.results[k]).ok
        &&& if self.setup_failed {
            &&& self.phase == Phase::Rollback || self.phase == Phase::Finished
            &&& self.results.len() == 1
            &&& !self.all_ok
        } else {
            match self.phase {
                Phase::Setup(k) => k < SETUP_STEPS && self.results.len() == 0,
                Phase::Savepoint(i) => self.dry_run && i < n && self.statements[i as int].len() > 0
                    && self.covers(i as int),
                Phase::Statement(i) => i < n && self.statements[i as int].len() > 0 && self.covers(
                    i as int,
                ) && (!self.dry_run ==> self.all_ok),
                Phase::Restore(i) => self.dry_run && i < n && self.statements[i as int].len() > 0
                    && self.covers(i + 1) && !self.results.last().ok,
                Phase::Commit => !self.dry_run && self.all_ok && self.covers(n),
                Phase::Rollback => if self.dry_run {
                    self.covers(n)
                } else {
                    !self.all_ok
                },
                Phase::Finished => if self.dry_run {
                    self.covers(n)
                } else {
                    self.committed || !self.all_ok
                },
            }
        }
    }
}

/// Up to the index `skip_blank` finds, every statement is empty; the one it
/// finds is not.
pub proof fn lemma_skip_blank(statements: Seq<Seq<char>>, from: int)
    requires
        0 <= from <= statements.len(),
    ensures
        from <= skip_blank(statements, from) <= statements.len(),
        skip_blank(statements, from) < statements.len() ==> statements[skip_blank(
            statements,
            from,
        )].len() > 0,
        nonblank(statements, skip_blank(statements, from)) == nonblank(statements, from),
    decreases statements.len() - from,
{
    if from < statements.len() && statements[from].len() == 0 {
        lemma_skip_blank(statements, from + 1);
    }
}

/// A run starts well-formed.
pub proof fn lemma_start_wf(
    statements: Seq<Seq<char>>,
    dry_run: bool,
    lock_timeout_ms: u32,
    statement_timeout_ms: u32,
)
    requires
        statements.len() <= usize::MAX,
    ensures
        RunModel::start(statements, dry_run, lock_timeout_ms, statement_timeout_ms).wf(),
{
}

/// Every step keeps a run well-formed.
pub proof fn lemma_record_wf(run: RunModel, outcome: OutcomeModel)
    requires
        run.wf(),
    ensures
        run.record(outcome).wf(),
{
    let next = run.record(outcome);
    let n = run.statements.len() as int;
    match run.phase {
        Phase::Setup(k) => {
            if outcome is Done {
                if k + 1 >= SETUP_STEPS {
                    lemma_skip_blank(run.statements, 0);
                    assert(sql_texts(run.results) =~= nonblank(run.statements, 0));
                }
            } else {
                assert(!next.results[0].ok);
            }
        },
        Phase::Savepoint(i) => {},
        Phase::Statement(i) => {
            let entry = outcome.entry(run.statements[i as int]);
            assert(sql_texts(next.results) =~= sql_texts(run.results).push(entry.sql));
            assert(next.covers(i + 1));
            if !run.dry_run {
                assert forall|k: int| 0 <= k < next.results.len() - 1 implies (
                #[trigger] next.results[k]).ok by {
                    assert(next.results[k] == run.results[k]);
                }
            }
            if outcome is Done {
                lemma_skip_blank(run.statements, i + 1);
                if run.all_ok {
                    assert forall|k: int| 0 <= k < next.results.len() implies (
                    #[trigger] next.results[k]).ok by {
                        if k < run.results.len() {
                            assert(next.results[k] == run.results[k]);
                        }
                    }
                }
                if !run.all_ok {
                    let bad = choose|k: int| 0 <= k < run.results.len() && !(
                    #[trigger] run.results[k]).ok;
                    assert(next.results[bad] == run.results[bad]);
                }
            } else {
                assert(!next.results[next.results.len() - 1].ok);
            }
        },
        Phase::Restore(i) => {
            lemma_skip_blank(run.statements, i + 1);
        },
        Phase::Commit => {
            if outcome is Failed {
                assert(!next.results[next.results.len() - 1].ok);
                assert forall|k: int| 0 <= k < next.results.len() - 1 implies (
                #[trigger] next.results[k]).ok by {
                    assert(next.results[k] == run.results[k]);
                }
            }
        },
        Phase::Rollback => {},
        Phase::Finished => {},
    }
}

// ---------------------------------------------------------------------------
// What holds of every run
// ---------------------------------------------------------------------------

/// A dry run never commits: it never asks for a commit, and its report never
/// says that anything was committed.
pub proof fn lemma_dry_run_never_commits(run: RunModel, duration_us: u64)
    requires
        run.wf(),
        run.dry_run,
    ensures
        run.action() != ActionModel::Commit,
        !run.report(duration_us).committed,
{
}

/// A run ends by ending the transaction: the last step before the report is
/// the rollback, or, for a run that applies and saw no failure, the commit.
pub proof fn lemma_run_ends_the_transaction(run: RunModel, outcome: OutcomeModel)
    requires
        run.wf(),
        run.phase != Phase::Finished,
        run.record(outcome).phase == Phase::Finished,
    ensures
        run.action() == ActionModel::Rollback || run.action() == ActionModel::Commit,
        run.dry_run ==> run.action() == ActionModel::Rollback,
        !run.all_ok ==> run.action() == ActionModel::Rollback,
{
}

/// A run that applies asks for the commit only when every non-empty
/// statement was executed and succeeded, and reports a commit exactly when
/// the report is a success.
pub proof fn lemma_apply_commits_iff_ok(run: RunModel, duration_us: u64)
    requires
        run.wf(),
        !run.dry_run,
    ensures
        run.action() == ActionModel::Commit ==> all_succeeded(run.results) && run.covers(
            run.statements.len() as int,
        ),
        run.phase == Phase::Finished ==> (run.report(duration_us).committed <==> run.report(
            duration_us,
        ).ok),
{
}

/// Nothing is committed after a failure: a report that holds a failed entry
/// is no success and says that nothing was committed.
pub proof fn lemma_failure_is_not_committed(run: RunModel, duration_us: u64, k: int)
    requires
        run.wf(),
        0 <= k < run.results.len(),
        !run.results[k].ok,
    ensures
        !run.report(duration_us).ok,
        !run.report(duration_us).committed,
{
}

/// The report is a success exactly when every entry is.
pub proof fn lemma_ok_is_conjunction(run: RunModel, duration_us: u64)
    requires
        run.wf(),
    ensures
        run.report(duration_us).ok == all_succeeded(run.report(duration_us).statements),
{
}

/// The report of a finished dry run whose setup went through holds one entry
/// per non-empty statement, in the order of the statements, with the trimmed
/// statement as its SQL text.
pub proof fn lemma_dry_run_report_entries(run: RunModel, duration_us: u64)
    requires
        run.wf(),
        run.dry_run,
        run.phase == Phase::Finished,
        !run.setup_failed,
    ensures
        sql_texts(run.report(duration_us).statements) == nonblank(
            run.statements,
            run.statements.len() as int,
        ),
{
}

/// In a dry run a savepoint is rolled back to only after its statement
/// failed, so that what a successful statement did stays visible to the
/// statements after it.
pub proof fn lemma_restore_only_after_failure(run: RunModel, i: usize)
    requires
        run.wf(),
        run.phase == Phase::Restore(i),
    ensures
        run.dry_run,
        run.results.len() > 0,
        !run.results.last().ok,
        run.results.last().sql == run.statements[i as int],
{
    assert(run.covers(i + 1));
    assert(nonblank(run.statements, i + 1) == nonblank(run.statements, i as int).push(
        run.statements[i as int],
    ));
    assert(sql_texts(run.results).last() == run.results.last().sql);
}

/// A run that applies stops at the first failure: only the last entry of its
/// report can be a failure.
pub proof fn lemma_apply_stops_at_first_failure(run: RunModel, k: int)
    requires
        run.wf(),
        !run.dry_run,
        0 <= k < run.results.len() - 1,
    ensures
        run.results[k].ok,
{
}

// ---------------------------------------------------------------------------
// The executor
// ---------------------------------------------------------------------------

fn clone_optional(o: &Option<String>) -> (r: Option<String>)
    ensures
        optional_text(r) == optional_text(*o),
{
    match o {
        Some(s) => Some(s.clone()),
        None => None,
    }
}

/// Extracts what a failure of the driver says of a statement: code, message,
/// detail and hint where the server refused the statement, the message alone
/// otherwise.
pub fn extract_pg_error(err: &BackendError) -> (r: StatementError)
    ensures
        r@ == extracted(*err),
{
    match err {
        BackendError::Database { code, message, detail, hint } => StatementError {
            code: clone_optional(code),
            message: message.clone(),
            detail: clone_optional(detail),
            hint: clone_optional(hint),
        },
        BackendError::Other(message) => StatementError {
            code: None,
            message: message.clone(),
            detail: None,
            hint: None,
        },
    }
}

fn setup_statement(k: usize, lock_timeout_ms: u32, statement_timeout_ms: u32) -> (r: String)
    ensures
        r@ == setup_sql(k as int, lock_timeout_ms, statement_timeout_ms),
{
    if k == 0 {
        let number = int_to_decimal(lock_timeout_ms as i128);
        let mut out = "SET LOCAL lock_timeout = '".to_owned();
        out.append(number.as_str());
        out.append("ms'");
        out
    } else if k == 1 {
        let number = int_to_decimal(statement_timeout_ms as i128);
        let mut out = "SET LOCAL statement_timeout = '".to_owned();
        out.append(number.as_str());
        out.append("ms'");
        out
    } else if k == 2 {
        "SET LOCAL idle_in_transaction_session_timeout = '60s'".to_owned()
    } else {
        "SET LOCAL application_name = 'tusker-migration'".to_owned()
    }
}

fn savepoint_statement(prefix: &str, i: usize) -> (r: String)
    ensures
        r@ == prefix@ + savepoint_name(i as int),
{
    let number = int_to_decimal(i as i128);
    let mut out = prefix.to_owned();
    out.append("s");
    out.append(number.as_str());
    out
}

fn entry_for(sql: String, outcome: StepOutcome) -> (r: StatementResult)
    ensures
        r@ == outcome@.entry(sql@),
{
    match outcome {
        StepOutcome::Done { rows_affected, duration_us } => StatementResult {
            sql,
            ok: true,
            duration_us,
            rows_affected: Some(rows_affected),
            error: None,
        },
        StepOutcome::Failed { error, duration_us } => StatementResult {
            sql,
            ok: false,
            duration_us,
            rows_affected: None,
            error: Some(extract_pg_error(&error)),
        },
    }
}

fn untimed_failure_for(sql: String, error: &BackendError) -> (r: StatementResult)
    ensures
        r@ == failure_entry(sql@, extracted(*error), 0),
{
    StatementResult {
        sql,
        ok: false,
        duration_us: 0,
        rows_affected: None,
        error: Some(extract_pg_error(error)),
    }
}

impl MigrationOperations {
    /// Begins a migration: the run that will set the timeouts (5000 ms and
    /// 30000 ms where none is given), execute the statements and end the
    /// transaction. Statements are trimmed; what is then empty is passed
    /// over.
    pub fn execute_migration(
        statements: &Vec<String>,
        dry_run: bool,
        lock_timeout_ms: Option<u32>,
        statement_timeout_ms: Option<u32>,
    ) -> (run: MigrationRun)
        ensures
            run@ == RunModel::start(
                trimmed_all(statements@),
                dry_run,
                match lock_timeout_ms {
                    Some(t) => t,
                    None => DEFAULT_LOCK_TIMEOUT_MS,
                },
                match statement_timeout_ms {
                    Some(t) => t,
                    None => DEFAULT_STATEMENT_TIMEOUT_MS,
                },
            ),
            run@.wf(),
    {
        let mut trimmed_statements: Vec<String> = Vec::new();
        let mut i: usize = 0;
        while i < statements.len()
            invariant
                i <= statements.len(),
                trimmed_statements.len() == i,
                forall|k: int| 0 <= k < i ==> trimmed_statements@[k]@ == trimmed(statements@[k]@),
            decreases statements.len() - i,
        {
            trimmed_statements.push(trim(statements[i].as_str()));
            i += 1;
        }
        let run = MigrationRun {
            statements: trimmed_statements,
            dry_run,
            lock_timeout_ms: match lock_timeout_ms {
                Some(t) => t,
                None => DEFAULT_LOCK_TIMEOUT_MS,
            },
            statement_timeout_ms: match statement_timeout_ms {
                Some(t) => t,
                None => DEFAULT_STATEMENT_TIMEOUT_MS,
            },
            phase: Phase::Setup(0),
            results: Vec::new(),
            all_ok: true,
            committed: false,
            setup_failed: false,
        };
        proof {
            assert(run@.statements =~= trimmed_all(statements@));
            assert(run@.results =~= Seq::<ResultModel>::empty());
        }
        run
    }
}

impl MigrationRun {
    /// Whether the run is well-formed; every run is.
    pub open spec fn wf(&self) -> bool {
        self@.wf()
    }

    fn resume_at(&self, from: usize) -> (r: Phase)
        requires
            from <= self@.statements.len(),
        ensures
            r == self@.resume(from as int),
    {
        let mut i: usize = from;
        while i < self.statements.len() && self.statements[i].as_str().is_empty()
            invariant
                from <= i <= self.statements.len(),
                skip_blank(self@.statements, i as int) == skip_blank(
                    self@.statements,
                    from as int,
                ),
            decreases self.statements.len() - i,
        {
            i += 1;
        }
        if i < self.statements.len() {
            if self.dry_run {
                Phase::Savepoint(i)
            } else {
                Phase::Statement(i)
            }
        } else if self.dry_run {
            Phase::Rollback
        } else {
            Phase::Commit
        }
    }

    /// Whether the run is over and the report can be made.
    pub fn is_finished(&self) -> (r: bool)
        ensures
            r == (self@.phase == Phase::Finished),
    {
        match self.phase {
            Phase::Finished => true,
            _ => false,
        }
    }

    /// The step to perform on the transaction next.
    pub fn next_action(&self) -> (r: MigrationAction)
        requires
            self.wf(),
        ensures
            r@ == self@.action(),
    {
        match self.phase {
            Phase::Setup(k) => MigrationAction::Execute(
                setup_statement(k, self.lock_timeout_ms, self.statement_timeout_ms),
            ),
            Phase::Savepoint(i) => MigrationAction::Execute(savepoint_statement("SAVEPOINT ", i)),
            Phase::Statement(i) => MigrationAction::Execute(self.statements[i].clone()),
            Phase::Restore(i) => MigrationAction::Execute(
                savepoint_statement("ROLLBACK TO SAVEPOINT ", i),
            ),
            Phase::Commit => MigrationAction::Commit,
            Phase::Rollback => MigrationAction::Rollback,
            Phase::Finished => MigrationAction::Finish,
        }
    }

    /// Takes note of how the step that `next_action` asked for went, and
    /// moves on.
    pub fn record(&mut self, outcome: StepOutcome)
        requires
            old(self).wf(),
        ensures
            final(self)@ == old(self)@.record(outcome@),
            final(self).wf(),
    {
        proof {
            lemma_record_wf(self@, outcome@);
            assert(self@.statements.len() == self.statements@.len());
        }
        let ghost before = self@;
        match self.phase {
            Phase::Setup(k) => match outcome {
                StepOutcome::Done { .. } => {
                    if k + 1 < SETUP_STEPS {
                        self.phase = Phase::Setup(k + 1);
                    } else {
                        self.phase = self.resume_at(0);
                    }
                },
                StepOutcome::Failed { error, .. } => {
                    let sql = setup_statement(k, self.lock_timeout_ms, self.statement_timeout_ms);
                    let mut results: Vec<StatementResult> = Vec::new();
                    results.push(untimed_failure_for(sql, &error));
                    self.results = results;
                    self.all_ok = false;
                    self.setup_failed = true;
                    self.phase = Phase::Rollback;
                    assert(self@.results =~= before.record(outcome@).results);
                },
            },
            Phase::Savepoint(i) => {
                self.phase = Phase::Statement(i);
            },
            Phase::Statement(i) => {
                let failed = match outcome {
                    StepOutcome::Done { .. } => false,
                    StepOutcome::Failed { .. } => true,
                };
                let entry = entry_for(self.statements[i].clone(), outcome);
                self.results.push(entry);
                assert(self@.results =~= before.record(outcome@).results);
                if failed {
                    self.all_ok = false;
                    self.phase = if self.dry_run {
                        Phase::Restore(i)
                    } else {
                        Phase::Rollback
                    };
                } else {
                    self.phase = self.resume_at(i + 1);
                }
            },
            Phase::Restore(i) => {
                self.phase = self.resume_at(i + 1);
            },
            Phase::Commit => match outcome {
                StepOutcome::Done { .. } => {
                    self.committed = true;
                    self.phase = Phase::Finished;
                },
                StepOutcome::Failed { error, .. } => {
                    self.results.push(untimed_failure_for("COMMIT".to_owned(), &error));
                    self.all_ok = false;
                    self.phase = Phase::Finished;
                    assert(self@.results =~= before.record(outcome@).results);
                },
            },
            Phase::Rollback => {
                self.phase = Phase::Finished;
            },
            Phase::Finished => {},
        }
    }

    /// The report of the run, which took `duration_us` microseconds in all.
    pub fn finish(self, duration_us: u64) -> (r: MigrationResult)
        requires
            self.wf(),
            self@.phase == Phase::Finished,
        ensures
            r@ == self@.report(duration_us),
    {
        MigrationResult {
            ok: self.all_ok,
            dry_run: self.dry_run,
            committed: self.committed,
            duration_us,
            statements: self.results,
            lock_timeout_ms: self.lock_timeout_ms,
            statement_timeout_ms: self.statement_timeout_ms,
        }
    }
}

} // verus!
