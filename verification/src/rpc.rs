//! Ingestion and delta-summary operations.
//!
//! Ingestion validates the manifest, sandboxes every artifact path under
//! `<cache_dir>/artifacts/`, parses each artifact by kind, and writes the
//! run in one transaction. The delta summary compares the stable-ID sets
//! of the two most recent completed runs.

use vstd::prelude::*;

use crate::delta::sid_set;
use crate::delta::DeltaResult;
use crate::paths::is_descendant;
use vstd::string::StringExecFns;

verus! {

/// Maximum artifact file size in bytes.
pub const MAX_ARTIFACT_SIZE: u64 = 100 * 1024 * 1024;

/// Domain-level error kinds, mapped to transport codes at the boundary.
#[derive(Debug)]
pub enum RpcError {
    /// An input was malformed: empty identifier, bad scope, unparsable or
    /// oversized artifact.
    InvalidArgument(String),
    /// An artifact file is missing or resolves outside the artifacts
    /// directory.
    NotFound(String),
    /// A storage or internal failure.
    Internal(String),
}

impl RpcError {
    /// The error's message.
    pub fn message(&self) -> &String {
        match self {
            RpcError::InvalidArgument(m) => m,
            RpcError::NotFound(m) => m,
            RpcError::Internal(m) => m,
        }
    }
}

/// The kind of an ingested artifact.
#[derive(Debug, Clone, Copy, PartialEq, Eq, Structural)]
pub enum ArtifactKind {
    /// No kind named; the artifact is ignored.
    Unspecified,
    /// A test-runner report.
    TestFailure,
    /// A lint report.
    Finding,
}

/// A reference to one artifact file.
pub struct ArtifactRef {
    /// Producer-side identifier, carried through.
    pub artifact_id: String,
    /// What the artifact holds.
    pub kind: ArtifactKind,
    /// Path of the artifact file.
    pub path: String,
    /// Producer-side content hash, carried through.
    pub hash: String,
}

/// A manifest naming the artifacts of one run.
pub struct ArtifactManifest {
    /// The workspace the run belongs to.
    pub workspace_id: String,
    /// The run's globally unique identifier.
    pub run_id: String,
    /// The artifacts to ingest.
    pub artifacts: Vec<ArtifactRef>,
}

/// The content of one artifact file, read by the caller after path
/// validation.
pub struct ArtifactPayload {
    /// What the artifact holds.
    pub kind: ArtifactKind,
    /// File size in bytes.
    pub size: u64,
    /// The file's text.
    pub content: String,
}

/// Validates the manifest identifiers: both must be non-empty.
pub fn validate_manifest(manifest: &ArtifactManifest) -> (r: Result<(), RpcError>)
    ensures
        r is Ok <==> manifest.workspace_id@.len() > 0 && manifest.run_id@.len() > 0,
        r matches Err(e) ==> e is InvalidArgument,
{
    if manifest.workspace_id.as_str().is_empty() {
        return Err(RpcError::InvalidArgument("workspace_id is required".to_owned()));
    }
    if manifest.run_id.as_str().is_empty() {
        return Err(RpcError::InvalidArgument("run_id is required".to_owned()));
    }
    Ok(())
}

/// Resolves an artifact path and enforces the sandbox: the canonical path
/// must lie under `<cache_dir>/artifacts`. Any path that does not resolve
/// there is rejected.
pub fn validate_artifact_path(cache_dir: &str, artifact_path: &str) -> (r: Result<
    String,
    RpcError,
>)
    ensures
        r matches Ok(c) ==> is_descendant(c@, cache_dir@ + "/artifacts"@),
        r matches Err(e) ==> e is NotFound,
{
    let canonical = match crate::fsys::canonicalize_path(artifact_path) {
        Option::Some(c) => c,
        Option::None => {
            let mut m = "artifact file not found: ".to_owned();
            m.append(artifact_path);
            return Err(RpcError::NotFound(m));
        },
    };
    let mut artifacts_dir = cache_dir.to_owned();
    artifacts_dir.append("/artifacts");
    let cc = crate::text::chars_of(canonical.as_str());
    let ac = crate::text::chars_of(artifacts_dir.as_str());
    if crate::text::vec_chars_eq(&cc, &ac) {
        return Ok(canonical);
    }
    let mut pref = ac;
    pref.push('/');
    proof {
        assert(pref@ == (cache_dir@ + "/artifacts"@).push('/'));
    }
    if crate::text::vec_starts_with(&cc, &pref) {
        Ok(canonical)
    } else {
        Err(RpcError::NotFound("artifact path outside artifacts directory".to_owned()))
    }
}

/// Checks an artifact's size against the limit.
pub fn check_artifact_size(size: u64) -> (r: Result<(), RpcError>)
    ensures
        r is Ok <==> size <= MAX_ARTIFACT_SIZE,
        r matches Err(e) ==> e is InvalidArgument,
{
    if size > MAX_ARTIFACT_SIZE {
        let mut m = "artifact file exceeds 100MB limit: ".to_owned();
        let digits = crate::text::u64_to_dec(size);
        let ds = crate::text::string_of(&digits);
        m.append(ds.as_str());
        m.append(" bytes");
        return Err(RpcError::InvalidArgument(m));
    }
    Ok(())
}

/// True when a payload must be rejected: it is over the size limit, or
/// its report does not decode and match its kind's schema.
pub open spec fn payload_rejected(p: ArtifactPayload) -> bool {
    ||| p.size > MAX_ARTIFACT_SIZE
    ||| (p.kind is TestFailure && !vitest_payload_ok(p.content@))
    ||| (p.kind is Finding && !eslint_payload_ok(p.content@))
}

/// Ingests one run: validates the manifest identifiers and each
/// artifact's size, parses test-runner and lint payloads, and writes the
/// run, its failures and its findings in a single transaction, completing
/// the run before the commit. Nothing persists when any step fails.
/// When several payloads of one kind are given, the last one's records
/// stand.
///
/// The call answers `InvalidArgument` exactly when an identifier is
/// empty or some payload must be rejected; every other failure is a
/// storage `Internal` error.
pub fn ingest_manifest(
    conn: &rusqlite::Connection,
    manifest: &ArtifactManifest,
    payloads: &Vec<ArtifactPayload>,
    now: i64,
) -> (r: Result<(), RpcError>)
    ensures
        (r matches Err(e) && e is InvalidArgument) <==> (manifest.workspace_id@.len() == 0
            || manifest.run_id@.len() == 0 || exists|k: int|
            0 <= k < payloads@.len() && payload_rejected(#[trigger] payloads@[k])),
        r matches Err(e) ==> e is InvalidArgument || e is Internal,
{
    validate_manifest(manifest)?;
    let mut failures: Vec<crate::store::TestFailureRow> = Vec::new();
    let mut findings: Vec<crate::store::FindingRow> = Vec::new();
    let mut i: usize = 0;
    while i < payloads.len()
        invariant
            i <= payloads@.len(),
            forall|k: int| 0 <= k < i ==> !payload_rejected(#[trigger] payloads@[k]),
        decreases payloads@.len() - i,
    {
        let payload = &payloads[i];
        match check_artifact_size(payload.size) {
            Ok(()) => {},
            Err(e) => {
                proof {
                    assert(payload_rejected(payloads@[i as int]));
                }
                return Err(e);
            },
        }
        match payload.kind {
            ArtifactKind::TestFailure => {
                match parse_test_failures(payload.content.as_str()) {
                    Ok(rows) => {
                        failures = rows;
                    },
                    Err(e) => {
                        proof {
                            assert(payload_rejected(payloads@[i as int]));
                        }
                        return Err(e);
                    },
                }
            },
            ArtifactKind::Finding => {
                match parse_findings(payload.content.as_str()) {
                    Ok(rows) => {
                        findings = rows;
                    },
                    Err(e) => {
                        proof {
                            assert(payload_rejected(payloads@[i as int]));
                        }
                        return Err(e);
                    },
                }
            },
            ArtifactKind::Unspecified => {},
        }
        i += 1;
    }
    store_all(conn, manifest, &failures, &findings, now)
}

/// True when the text is valid JSON matching the test-runner schema, so
/// a test-failure payload parses.
pub open spec fn vitest_payload_ok(s: Seq<char>) -> bool {
    crate::json::json_of(s) matches Some(d) && crate::vitest::vitest_parse_spec(
        d,
        Seq::<char>::empty(),
    ) is Some
}

/// True when the text is valid JSON matching the lint schema, so a
/// finding payload parses.
pub open spec fn eslint_payload_ok(s: Seq<char>) -> bool {
    crate::json::json_of(s) matches Some(d) && crate::eslint::eslint_parse_spec(
        d,
        Seq::<char>::empty(),
    ) is Some
}

/// The rows derived from parsed failure records: each record's fields
/// with the stable ID over its `(file, test_id)` pair.
pub open spec fn failure_rows_of(tfs: Seq<(Seq<char>, Seq<char>, Seq<char>)>) -> Seq<
    (Seq<char>, Seq<char>, Seq<char>, Seq<char>),
> {
    tfs.map_values(
        |t: (Seq<char>, Seq<char>, Seq<char>)|
            (crate::stable_id::stable_id_of(t.1, t.0), t.0, t.1, t.2),
    )
}

/// Parses test failures from a report whose paths are already
/// workspace-relative, deriving each row's stable ID.
///
/// Succeeds exactly when the payload parses; the rows then are, in
/// order, the parsed failure records with their stable IDs.
pub fn parse_test_failures(content: &str) -> (r: Result<
    Vec<crate::store::TestFailureRow>,
    RpcError,
>)
    ensures
        match r {
            Ok(rows) => vitest_payload_ok(content@) && crate::store::tf_row_views(rows@)
                == failure_rows_of(
                crate::vitest::vitest_parse_spec(
                    crate::json::json_of(content@).unwrap(),
                    Seq::<char>::empty(),
                ).unwrap(),
            ),
            Err(e) => e is InvalidArgument && !vitest_payload_ok(content@),
        },
{
    proof {
        reveal_strlit("");
        assert(""@ =~= Seq::<char>::empty());
    }
    let parsed = match crate::vitest::parse(content, "") {
        Ok(v) => v,
        Err(crate::parsers::ParseError::InvalidJson(m)) => {
            let mut msg = "parse error: invalid JSON: ".to_owned();
            msg.append(m.as_str());
            return Err(RpcError::InvalidArgument(msg));
        },
    };
    let ghost tv = crate::vitest::tf_views(parsed@);
    let mut rows: Vec<crate::store::TestFailureRow> = Vec::new();
    let mut i: usize = 0;
    while i < parsed.len()
        invariant
            i <= parsed@.len(),
            tv == crate::vitest::tf_views(parsed@),
            vitest_payload_ok(content@),
            crate::vitest::vitest_parse_spec(
                crate::json::json_of(content@).unwrap(),
                Seq::<char>::empty(),
            ) == Some(tv),
            crate::store::tf_row_views(rows@) == failure_rows_of(tv.take(i as int)),
        decreases parsed@.len() - i,
    {
        let f = &parsed[i];
        let stable_id = crate::stable_id::compute(f.file.as_str(), f.test_id.as_str());
        let ghost before = crate::store::tf_row_views(rows@);
        rows.push(
            crate::store::TestFailureRow {
                stable_id,
                test_id: f.test_id.clone(),
                file: f.file.clone(),
                message: f.message.clone(),
            },
        );
        proof {
            assert(tv[i as int] == crate::vitest::tf_view(parsed@[i as int]));
            assert(crate::store::tf_row_views(rows@) =~= before.push(
                crate::store::tf_row_view(rows@.last()),
            ));
            assert(failure_rows_of(tv.take(i as int + 1)) =~= failure_rows_of(
                tv.take(i as int),
            ).push(
                (
                    crate::stable_id::stable_id_of(tv[i as int].1, tv[i as int].0),
                    tv[i as int].0,
                    tv[i as int].1,
                    tv[i as int].2,
                ),
            ));
        }
        i += 1;
    }
    proof {
        assert(tv.take(tv.len() as int) =~= tv);
    }
    Ok(rows)
}

/// Parses findings from a report whose paths are already
/// workspace-relative.
///
/// Succeeds exactly when the payload parses; the rows then carry, in
/// order, exactly the parsed findings' fields.
pub fn parse_findings(content: &str) -> (r: Result<Vec<crate::store::FindingRow>, RpcError>)
    ensures
        match r {
            Ok(rows) => eslint_payload_ok(content@) && crate::store::fd_row_views(rows@)
                == crate::eslint::eslint_parse_spec(
                crate::json::json_of(content@).unwrap(),
                Seq::<char>::empty(),
            ).unwrap(),
            Err(e) => e is InvalidArgument && !eslint_payload_ok(content@),
        },
{
    proof {
        reveal_strlit("");
        assert(""@ =~= Seq::<char>::empty());
    }
    let parsed = match crate::eslint::parse(content, "") {
        Ok(v) => v,
        Err(crate::parsers::ParseError::InvalidJson(m)) => {
            let mut msg = "parse error: invalid JSON: ".to_owned();
            msg.append(m.as_str());
            return Err(RpcError::InvalidArgument(msg));
        },
    };
    let ghost fv = crate::eslint::fd_views(parsed@);
    let mut rows: Vec<crate::store::FindingRow> = Vec::new();
    let mut i: usize = 0;
    while i < parsed.len()
        invariant
            i <= parsed@.len(),
            fv == crate::eslint::fd_views(parsed@),
            eslint_payload_ok(content@),
            crate::eslint::eslint_parse_spec(
                crate::json::json_of(content@).unwrap(),
                Seq::<char>::empty(),
            ) == Some(fv),
            crate::store::fd_row_views(rows@) == fv.take(i as int),
        decreases parsed@.len() - i,
    {
        let f = &parsed[i];
        let ghost before = crate::store::fd_row_views(rows@);
        rows.push(
            crate::store::FindingRow {
                stable_id: f.stable_id.clone(),
                tool: f.tool.clone(),
                rule: f.rule.clone(),
                file: f.file.clone(),
                start_line: f.start_line,
                start_column: f.start_column,
                end_line: f.end_line,
                end_column: f.end_column,
                message: f.message.clone(),
            },
        );
        proof {
            assert(fv[i as int] == crate::eslint::fd_view(parsed@[i as int]));
            assert(crate::store::fd_row_views(rows@) =~= before.push(
                crate::store::fd_row_view(rows@.last()),
            ));
            assert(fv.take(i as int + 1) =~= fv.take(i as int).push(fv[i as int]));
        }
        i += 1;
    }
    proof {
        assert(fv.take(fv.len() as int) =~= fv);
    }
    Ok(rows)
}

fn store_all(
    conn: &rusqlite::Connection,
    manifest: &ArtifactManifest,
    failures: &Vec<crate::store::TestFailureRow>,
    findings: &Vec<crate::store::FindingRow>,
    now: i64,
) -> (r: Result<(), RpcError>)
    ensures
        r matches Err(e) ==> e is Internal,
{
    match crate::store::begin_tx(conn) {
        Ok(()) => {},
        Err(e) => {
            return Err(internal(&e));
        },
    }
    let steps = store_steps(conn, manifest, failures, findings, now);
    match steps {
        Ok(()) => match crate::store::commit_tx(conn) {
            Ok(()) => Ok(()),
            Err(e) => {
                let _ = crate::store::rollback_tx(conn);
                Err(internal(&e))
            },
        },
        Err(e) => {
            let _ = crate::store::rollback_tx(conn);
            Err(e)
        },
    }
}

fn store_steps(
    conn: &rusqlite::Connection,
    manifest: &ArtifactManifest,
    failures: &Vec<crate::store::TestFailureRow>,
    findings: &Vec<crate::store::FindingRow>,
    now: i64,
) -> (r: Result<(), RpcError>)
    ensures
        r matches Err(e) ==> e is Internal,
{
    match crate::store::insert_run(
        conn,
        manifest.workspace_id.as_str(),
        manifest.run_id.as_str(),
        now,
    ) {
        Ok(()) => {},
        Err(e) => {
            return Err(internal(&e));
        },
    }
    match crate::store::insert_test_failures(conn, manifest.run_id.as_str(), "", failures) {
        Ok(()) => {},
        Err(e) => {
            return Err(internal(&e));
        },
    }
    match crate::store::insert_findings(conn, manifest.run_id.as_str(), "", findings) {
        Ok(()) => {},
        Err(e) => {
            return Err(internal(&e));
        },
    }
    match crate::store::complete_run(conn, manifest.run_id.as_str(), now) {
        Ok(()) => {},
        Err(e) => {
            return Err(internal(&e));
        },
    }
    Ok(())
}

fn internal(e: &crate::store::StoreError) -> (r: RpcError)
    ensures
        r is Internal,
{
    let mut m = "store error: ".to_owned();
    m.append(e.message().as_str());
    RpcError::Internal(m)
}

/// The delta of one entity between the current and, when present, the
/// previous run: `new` counts current IDs absent before, `fixed` counts
/// previous IDs absent now. With no previous run everything current is
/// new; counts saturate at the 32-bit bound.
pub fn compute_entity_delta(current: &Vec<String>, previous: Option<&Vec<String>>) -> (r: (
    i32,
    i32,
))
    ensures
        match previous {
            Some(prev) => {
                &&& sid_set(current@).difference(sid_set(prev@)).len() <= i32::MAX ==> r.0 as int
                    == sid_set(current@).difference(sid_set(prev@)).len()
                &&& sid_set(prev@).difference(sid_set(current@)).len() <= i32::MAX ==> r.1 as int
                    == sid_set(prev@).difference(sid_set(current@)).len()
            },
            None => {
                &&& sid_set(current@).len() <= i32::MAX ==> r.0 as int == sid_set(current@).len()
                &&& r.1 == 0
            },
        },
{
    match previous {
        Option::Some(prev) => {
            let (n, f) = crate::delta::delta_counts(current, prev);
            (saturate_i32(n), saturate_i32(f))
        },
        Option::None => {
            let empty: Vec<String> = Vec::new();
            let (n, _) = crate::delta::delta_counts(current, &empty);
            proof {
                assert(sid_set(empty@) =~= Set::<Seq<char>>::empty());
                assert(sid_set(current@).difference(sid_set(empty@)) =~= sid_set(current@));
            }
            (saturate_i32(n), 0)
        },
    }
}

fn saturate_i32(v: usize) -> (r: i32)
    ensures
        v <= i32::MAX ==> r as int == v,
        r >= 0,
{
    if v > i32::MAX as usize {
        i32::MAX
    } else {
        v as i32
    }
}

/// The all-zero delta result.
pub open spec fn zero_delta() -> DeltaResult {
    DeltaResult { new_test_failures: 0, fixed_test_failures: 0, new_findings: 0, fixed_findings: 0 }
}

/// Assembles the delta result for the shape of the store's run list.
///
/// With no completed run everything is zero; with one completed run
/// everything current counts as new and nothing as fixed; with two, each
/// entity independently answers its set differences. Counts saturate at
/// the 32-bit bound.
pub fn assemble_delta(
    run_count: usize,
    current_tf: &Vec<String>,
    current_f: &Vec<String>,
    prev_tf: &Vec<String>,
    prev_f: &Vec<String>,
) -> (r: DeltaResult)
    ensures
        run_count == 0 ==> r == zero_delta(),
        run_count == 1 ==> {
            &&& sid_set(current_tf@).len() <= i32::MAX ==> r.new_test_failures as int == sid_set(
                current_tf@,
            ).len()
            &&& sid_set(current_f@).len() <= i32::MAX ==> r.new_findings as int == sid_set(
                current_f@,
            ).len()
            &&& r.fixed_test_failures == 0
            &&& r.fixed_findings == 0
        },
        run_count >= 2 ==> {
            &&& sid_set(current_tf@).difference(sid_set(prev_tf@)).len() <= i32::MAX
                ==> r.new_test_failures as int == sid_set(current_tf@).difference(
                sid_set(prev_tf@),
            ).len()
            &&& sid_set(prev_tf@).difference(sid_set(current_tf@)).len() <= i32::MAX
                ==> r.fixed_test_failures as int == sid_set(prev_tf@).difference(
                sid_set(current_tf@),
            ).len()
            &&& sid_set(current_f@).difference(sid_set(prev_f@)).len() <= i32::MAX
                ==> r.new_findings as int == sid_set(current_f@).difference(
                sid_set(prev_f@),
            ).len()
            &&& sid_set(prev_f@).difference(sid_set(current_f@)).len() <= i32::MAX
                ==> r.fixed_findings as int == sid_set(prev_f@).difference(
                sid_set(current_f@),
            ).len()
        },
{
    if run_count == 0 {
        return DeltaResult {
            new_test_failures: 0,
            fixed_test_failures: 0,
            new_findings: 0,
            fixed_findings: 0,
        };
    }
    if run_count == 1 {
        let (new_tf, fixed_tf) = compute_entity_delta(current_tf, None);
        let (new_f, fixed_f) = compute_entity_delta(current_f, None);
        return DeltaResult {
            new_test_failures: new_tf,
            fixed_test_failures: fixed_tf,
            new_findings: new_f,
            fixed_findings: fixed_f,
        };
    }
    let (new_tf, fixed_tf) = compute_entity_delta(current_tf, Some(prev_tf));
    let (new_f, fixed_f) = compute_entity_delta(current_f, Some(prev_f));
    DeltaResult {
        new_test_failures: new_tf,
        fixed_test_failures: fixed_tf,
        new_findings: new_f,
        fixed_findings: fixed_f,
    }
}

/// Answers the delta summary for a workspace: the new and fixed counts of
/// test failures and findings between the two most recent completed runs.
/// An empty workspace identifier is rejected; the result for each shape
/// of the store's answer is fixed by [`assemble_delta`].
pub fn get_delta_summary(conn: &rusqlite::Connection, workspace_id: &str) -> (r: Result<
    DeltaResult,
    RpcError,
>)
    ensures
        workspace_id@.len() == 0 <==> (r matches Err(e) && e is InvalidArgument),
        r matches Err(e) ==> e is InvalidArgument || e is Internal,
{
    if workspace_id.is_empty() {
        return Err(RpcError::InvalidArgument("workspace_id is required".to_owned()));
    }
    let runs = match crate::store::get_recent_runs(conn, workspace_id, 2) {
        Ok(v) => v,
        Err(e) => {
            return Err(internal(&e));
        },
    };
    let mut current_tf: Vec<String> = Vec::new();
    let mut current_f: Vec<String> = Vec::new();
    let mut prev_tf: Vec<String> = Vec::new();
    let mut prev_f: Vec<String> = Vec::new();
    if runs.len() >= 1 {
        current_tf = match crate::store::get_stable_ids_for_run(conn, runs[0].run_id.as_str()) {
            Ok(v) => v,
            Err(e) => {
                return Err(internal(&e));
            },
        };
        current_f = match crate::store::get_finding_stable_ids_for_run(
            conn,
            runs[0].run_id.as_str(),
        ) {
            Ok(v) => v,
            Err(e) => {
                return Err(internal(&e));
            },
        };
    }
    if runs.len() >= 2 {
        prev_tf = match crate::store::get_stable_ids_for_run(conn, runs[1].run_id.as_str()) {
            Ok(v) => v,
            Err(e) => {
                return Err(internal(&e));
            },
        };
        prev_f = match crate::store::get_finding_stable_ids_for_run(
            conn,
            runs[1].run_id.as_str(),
        ) {
            Ok(v) => v,
            Err(e) => {
                return Err(internal(&e));
            },
        };
    }
    Ok(assemble_delta(runs.len(), &current_tf, &current_f, &prev_tf, &prev_f))
}

} // verus!
