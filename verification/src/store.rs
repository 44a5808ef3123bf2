//! Relational storage for runs, test failures and findings.
//!
//! The schema is created idempotently at startup; every write path runs
//! inside an explicit transaction driven by the ingestion pipeline. The
//! SQL lives here in verified code; only the calls into the database
//! driver are trusted.

use vstd::prelude::*;

use vstd::string::StringExecFns;

verus! {

/// The `rusqlite::Connection` type, used opaquely as the database handle.
#[verifier::external_type_specification]
#[verifier::external_body]
pub struct ExConnection(rusqlite::Connection);

/// Errors that can occur during storage operations.
#[derive(Debug)]
pub enum StoreError {
    /// The database driver reported an error; the text is its message.
    Sqlite(String),
}

impl StoreError {
    /// The error's message.
    pub fn message(&self) -> &String {
        match self {
            StoreError::Sqlite(m) => m,
        }
    }
}

/// A test failure to insert into the database.
pub struct TestFailureRow {
    /// Stable ID of the failure.
    pub stable_id: String,
    /// Canonical test identifier.
    pub test_id: String,
    /// Workspace-relative file.
    pub file: String,
    /// Failure message.
    pub message: String,
}

/// A finding to insert into the database.
pub struct FindingRow {
    /// Stable ID of the finding.
    pub stable_id: String,
    /// Producing tool.
    pub tool: String,
    /// Rule name.
    pub rule: String,
    /// Workspace-relative file.
    pub file: String,
    /// Start line.
    pub start_line: i32,
    /// Start column.
    pub start_column: i32,
    /// End line.
    pub end_line: i32,
    /// End column.
    pub end_column: i32,
    /// Finding message.
    pub message: String,
}

/// The fields of a test-failure row:
/// `(stable_id, test_id, file, message)`.
pub open spec fn tf_row_view(r: TestFailureRow) -> (Seq<char>, Seq<char>, Seq<char>, Seq<char>) {
    (r.stable_id@, r.test_id@, r.file@, r.message@)
}

/// The row views of a test-failure row list.
pub open spec fn tf_row_views(v: Seq<TestFailureRow>) -> Seq<
    (Seq<char>, Seq<char>, Seq<char>, Seq<char>),
> {
    v.map_values(|r: TestFailureRow| tf_row_view(r))
}

/// The fields of a finding row, in the finding's own view shape:
/// `((stable_id, tool, rule, file), (start_line, start_column, end_line,
/// end_column), message)`.
pub open spec fn fd_row_view(r: FindingRow) -> (
    (Seq<char>, Seq<char>, Seq<char>, Seq<char>),
    (int, int, int, int),
    Seq<char>,
) {
    (
        (r.stable_id@, r.tool@, r.rule@, r.file@),
        (r.start_line as int, r.start_column as int, r.end_line as int, r.end_column as int),
        r.message@,
    )
}

/// The row views of a finding row list.
pub open spec fn fd_row_views(v: Seq<FindingRow>) -> Seq<
    ((Seq<char>, Seq<char>, Seq<char>, Seq<char>), (int, int, int, int), Seq<char>),
> {
    v.map_values(|r: FindingRow| fd_row_view(r))
}

/// A completed run, for delta computation.
pub struct RunInfo {
    /// The run's globally unique identifier.
    pub run_id: String,
}

/// Relies on `rusqlite::Connection::open`: opens or creates the database
/// file; the outcome depends on the filesystem.
#[verifier::external_body]
fn sqlite_open(path: &str) -> (r: Result<rusqlite::Connection, StoreError>) {
    rusqlite::Connection::open(path).map_err(|e| StoreError::Sqlite(e.to_string()))
}

/// Relies on `rusqlite::Connection::execute_batch`: runs the given SQL;
/// the outcome depends on the database state.
#[verifier::external_body]
fn sqlite_exec(conn: &rusqlite::Connection, sql: &str) -> (r: Result<(), StoreError>) {
    conn.execute_batch(sql).map_err(|e| StoreError::Sqlite(e.to_string()))
}

/// Relies on `rusqlite::Connection::execute` with three text/integer
/// parameters; the outcome depends on the database state.
#[verifier::external_body]
fn sqlite_exec_ssi(
    conn: &rusqlite::Connection,
    sql: &str,
    p1: &str,
    p2: &str,
    p3: i64,
) -> (r: Result<(), StoreError>) {
    conn.execute(sql, (p1, p2, p3)).map(|_| ()).map_err(|e| StoreError::Sqlite(e.to_string()))
}

/// Relies on `rusqlite::Connection::execute` with an integer and a text
/// parameter; the outcome depends on the database state.
#[verifier::external_body]
fn sqlite_exec_is(conn: &rusqlite::Connection, sql: &str, p1: i64, p2: &str) -> (r: Result<
    (),
    StoreError,
>) {
    conn.execute(sql, (p1, p2)).map(|_| ()).map_err(|e| StoreError::Sqlite(e.to_string()))
}

/// Relies on `rusqlite::Connection::execute` with six text parameters;
/// the outcome depends on the database state.
#[verifier::external_body]
fn sqlite_exec_s6(
    conn: &rusqlite::Connection,
    sql: &str,
    p1: &str,
    p2: &str,
    p3: &str,
    p4: &str,
    p5: &str,
    p6: &str,
) -> (r: Result<(), StoreError>) {
    conn.execute(sql, (p1, p2, p3, p4, p5, p6)).map(|_| ()).map_err(
        |e| StoreError::Sqlite(e.to_string()),
    )
}

/// Relies on `rusqlite::Connection::execute` with the eleven parameters
/// of a finding row; the outcome depends on the database state.
#[verifier::external_body]
fn sqlite_exec_finding(
    conn: &rusqlite::Connection,
    sql: &str,
    run_id: &str,
    f: &FindingRow,
    package: &str,
) -> (r: Result<(), StoreError>) {
    let params = (
        run_id, &f.stable_id, &f.tool, &f.rule, &f.file, f.start_line, f.start_column,
        f.end_line, f.end_column, &f.message, package,
    );
    conn.execute(sql, params).map(|_| ()).map_err(|e| StoreError::Sqlite(e.to_string()))
}

/// Relies on `rusqlite::Statement::query_map` over a one-parameter query
/// whose rows hold one text column; yields the column values in row
/// order. The outcome depends on the database state.
#[verifier::external_body]
fn sqlite_query_strings_1(conn: &rusqlite::Connection, sql: &str, p1: &str) -> (r: Result<
    Vec<String>,
    StoreError,
>) {
    let mut stmt = conn.prepare(sql).map_err(|e| StoreError::Sqlite(e.to_string()))?;
    let rows = stmt.query_map((p1,), |row| row.get::<_, String>(0)).map_err(
        |e| StoreError::Sqlite(e.to_string()),
    )?;
    let mut out = Vec::new();
    for row in rows {
        out.push(row.map_err(|e| StoreError::Sqlite(e.to_string()))?);
    }
    Ok(out)
}

/// Relies on `rusqlite::Statement::query_map` over a two-text-parameter
/// query whose rows hold one text column; yields the column values in row
/// order. The outcome depends on the database state.
#[verifier::external_body]
fn sqlite_query_strings_2(conn: &rusqlite::Connection, sql: &str, p1: &str, p2: &str) -> (r: Result<
    Vec<String>,
    StoreError,
>) {
    let mut stmt = conn.prepare(sql).map_err(|e| StoreError::Sqlite(e.to_string()))?;
    let rows = stmt.query_map((p1, p2), |row| row.get::<_, String>(0)).map_err(
        |e| StoreError::Sqlite(e.to_string()),
    )?;
    let mut out = Vec::new();
    for row in rows {
        out.push(row.map_err(|e| StoreError::Sqlite(e.to_string()))?);
    }
    Ok(out)
}

/// Opens a connection to the database under the cache directory.
pub fn open_connection(cache_dir: &str) -> Result<rusqlite::Connection, StoreError> {
    let mut path = cache_dir.to_owned();
    path.append("/db.sqlite");
    sqlite_open(path.as_str())
}

/// Initializes the database at `<cache_dir>/db.sqlite`: creates the runs,
/// test-failures and findings tables and their indices. Forward-only and
/// idempotent: re-running it preserves existing data.
pub fn init_storage(cache_dir: &str) -> Result<(), StoreError> {
    let conn = open_connection(cache_dir)?;
    sqlite_exec(
        &conn,
        "CREATE TABLE IF NOT EXISTS runs (\
         id INTEGER PRIMARY KEY AUTOINCREMENT, \
         workspace_id TEXT NOT NULL, \
         run_id TEXT NOT NULL UNIQUE, \
         started_at INTEGER NOT NULL, \
         completed_at INTEGER); \
         CREATE INDEX IF NOT EXISTS idx_runs_workspace_started \
         ON runs(workspace_id, started_at DESC);",
    )?;
    sqlite_exec(
        &conn,
        "CREATE TABLE IF NOT EXISTS test_failures (\
         id INTEGER PRIMARY KEY AUTOINCREMENT, \
         run_id TEXT NOT NULL, \
         stable_id TEXT NOT NULL, \
         test_id TEXT NOT NULL, \
         file TEXT NOT NULL, \
         message TEXT NOT NULL, \
         package TEXT NOT NULL DEFAULT '', \
         UNIQUE(run_id, stable_id)); \
         CREATE INDEX IF NOT EXISTS idx_test_failures_run_stable \
         ON test_failures(run_id, stable_id); \
         CREATE INDEX IF NOT EXISTS idx_test_failures_run_package \
         ON test_failures(run_id, package);",
    )?;
    sqlite_exec(
        &conn,
        "CREATE TABLE IF NOT EXISTS findings (\
         id INTEGER PRIMARY KEY AUTOINCREMENT, \
         run_id TEXT NOT NULL, \
         stable_id TEXT NOT NULL, \
         tool TEXT NOT NULL, \
         rule TEXT NOT NULL, \
         file TEXT NOT NULL, \
         start_line INTEGER NOT NULL, \
         start_column INTEGER NOT NULL, \
         end_line INTEGER NOT NULL, \
         end_column INTEGER NOT NULL, \
         message TEXT NOT NULL, \
         package TEXT NOT NULL DEFAULT '', \
         UNIQUE(run_id, stable_id)); \
         CREATE INDEX IF NOT EXISTS idx_findings_run_stable \
         ON findings(run_id, stable_id); \
         CREATE INDEX IF NOT EXISTS idx_findings_run_package \
         ON findings(run_id, package);",
    )?;
    Ok(())
}

/// Begins a transaction.
pub fn begin_tx(conn: &rusqlite::Connection) -> Result<(), StoreError> {
    sqlite_exec(conn, "BEGIN")
}

/// Commits the open transaction.
pub fn commit_tx(conn: &rusqlite::Connection) -> Result<(), StoreError> {
    sqlite_exec(conn, "COMMIT")
}

/// Rolls back the open transaction.
pub fn rollback_tx(conn: &rusqlite::Connection) -> Result<(), StoreError> {
    sqlite_exec(conn, "ROLLBACK")
}

/// Inserts a new run record.
pub fn insert_run(
    conn: &rusqlite::Connection,
    workspace_id: &str,
    run_id: &str,
    started_at: i64,
) -> Result<(), StoreError> {
    sqlite_exec_ssi(
        conn,
        "INSERT INTO runs (workspace_id, run_id, started_at) VALUES (?1, ?2, ?3)",
        workspace_id,
        run_id,
        started_at,
    )
}

/// Marks a run as completed.
pub fn complete_run(conn: &rusqlite::Connection, run_id: &str, completed_at: i64) -> Result<
    (),
    StoreError,
> {
    sqlite_exec_is(
        conn,
        "UPDATE runs SET completed_at = ?1 WHERE run_id = ?2",
        completed_at,
        run_id,
    )
}

/// Inserts test failures in batch with package scope. Stops at the first
/// driver error.
pub fn insert_test_failures(
    conn: &rusqlite::Connection,
    run_id: &str,
    package: &str,
    failures: &Vec<TestFailureRow>,
) -> (r: Result<(), StoreError>)
{
    let mut i: usize = 0;
    while i < failures.len()
        decreases failures@.len() - i,
    {
        let f = &failures[i];
        let res = sqlite_exec_s6(
            conn,
            "INSERT INTO test_failures (run_id, stable_id, test_id, file, message, package) \
             VALUES (?1, ?2, ?3, ?4, ?5, ?6)",
            run_id,
            f.stable_id.as_str(),
            f.test_id.as_str(),
            f.file.as_str(),
            f.message.as_str(),
            package,
        );
        match res {
            Ok(()) => {},
            Err(e) => {
                return Err(e);
            },
        }
        i += 1;
    }
    Ok(())
}

/// Inserts findings in batch with package scope. Stops at the first
/// driver error.
pub fn insert_findings(
    conn: &rusqlite::Connection,
    run_id: &str,
    package: &str,
    findings: &Vec<FindingRow>,
) -> (r: Result<(), StoreError>)
{
    let mut i: usize = 0;
    while i < findings.len()
        decreases findings@.len() - i,
    {
        let res = sqlite_exec_finding(
            conn,
            "INSERT INTO findings (run_id, stable_id, tool, rule, file, \
             start_line, start_column, end_line, end_column, message, package) \
             VALUES (?1, ?2, ?3, ?4, ?5, ?6, ?7, ?8, ?9, ?10, ?11)",
            run_id,
            &findings[i],
            package,
        );
        match res {
            Ok(()) => {},
            Err(e) => {
                return Err(e);
            },
        }
        i += 1;
    }
    Ok(())
}

/// Gets the most recent completed runs for a workspace, newest first.
pub fn get_recent_runs(
    conn: &rusqlite::Connection,
    workspace_id: &str,
    limit: usize,
) -> (r: Result<Vec<RunInfo>, StoreError>)
    ensures
        r matches Ok(v) ==> v@.len() <= limit,
{
    let capped: i64 = if limit > 1000000 {
        1000000
    } else {
        limit as i64
    };
    let ids = sqlite_recent_run_ids(conn, workspace_id, capped, limit)?;
    let mut out: Vec<RunInfo> = Vec::new();
    let mut i: usize = 0;
    while i < ids.len()
        invariant
            ids@.len() <= limit,
            out@.len() == i,
            i <= ids@.len(),
        decreases ids@.len() - i,
    {
        out.push(RunInfo { run_id: ids[i].clone() });
        i += 1;
    }
    Ok(out)
}

/// Relies on `rusqlite::Statement::query_map` over the recent-runs query
/// and on its `LIMIT` clause: the run identifiers of the workspace's
/// completed runs, newest first, at most `limit` of them. Which rows come
/// back depends on the database state.
#[verifier::external_body]
fn sqlite_recent_run_ids(
    conn: &rusqlite::Connection,
    workspace_id: &str,
    capped: i64,
    limit: usize,
) -> (r: Result<Vec<String>, StoreError>)
    requires
        0 <= capped <= limit,
    ensures
        r matches Ok(v) ==> v@.len() <= limit,
{
    let sql = "SELECT run_id FROM runs WHERE workspace_id = ?1 \
               AND completed_at IS NOT NULL ORDER BY started_at DESC LIMIT ?2";
    let mut stmt = conn.prepare(sql).map_err(|e| StoreError::Sqlite(e.to_string()))?;
    let rows = stmt.query_map((workspace_id, capped), |row| row.get::<_, String>(0)).map_err(
        |e| StoreError::Sqlite(e.to_string()),
    )?;
    let mut out = Vec::new();
    for row in rows {
        out.push(row.map_err(|e| StoreError::Sqlite(e.to_string()))?);
    }
    Ok(out)
}

/// Gets all test-failure stable IDs for a run.
pub fn get_stable_ids_for_run(conn: &rusqlite::Connection, run_id: &str) -> Result<
    Vec<String>,
    StoreError,
> {
    sqlite_query_strings_1(conn, "SELECT stable_id FROM test_failures WHERE run_id = ?1", run_id)
}

/// Gets all finding stable IDs for a run.
pub fn get_finding_stable_ids_for_run(conn: &rusqlite::Connection, run_id: &str) -> Result<
    Vec<String>,
    StoreError,
> {
    sqlite_query_strings_1(conn, "SELECT stable_id FROM findings WHERE run_id = ?1", run_id)
}

/// Gets test-failure stable IDs for a run, scoped to a package; the empty
/// scope reads everything.
pub fn get_test_failure_stable_ids_scoped(
    conn: &rusqlite::Connection,
    run_id: &str,
    package_scope: &str,
) -> Result<Vec<String>, StoreError> {
    if package_scope.is_empty() {
        return get_stable_ids_for_run(conn, run_id);
    }
    sqlite_query_strings_2(
        conn,
        "SELECT stable_id FROM test_failures WHERE run_id = ?1 AND package = ?2",
        run_id,
        package_scope,
    )
}

/// Gets finding stable IDs for a run, scoped to a package; the empty
/// scope reads everything.
pub fn get_finding_stable_ids_scoped(
    conn: &rusqlite::Connection,
    run_id: &str,
    package_scope: &str,
) -> Result<Vec<String>, StoreError> {
    if package_scope.is_empty() {
        return get_finding_stable_ids_for_run(conn, run_id);
    }
    sqlite_query_strings_2(
        conn,
        "SELECT stable_id FROM findings WHERE run_id = ?1 AND package = ?2",
        run_id,
        package_scope,
    )
}

} // verus!
