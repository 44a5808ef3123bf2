//! Lint JSON parsing: extracts error-level findings from a lint report.
//!
//! The report is an array of per-file results with messages. Only
//! messages of severity 2 (errors) become findings. Rule, file and
//! message fields are truncated to character budgets; line and column
//! floor at 1; the end position defaults to the start. Each finding
//! carries a stable ID derived from its rule, file and start position.

use vstd::prelude::*;

use crate::json::json_of;
use crate::json::Json;
use crate::parsers::field_arr_default;
use crate::parsers::field_i32_default;
use crate::parsers::field_i32_opt;
use crate::parsers::field_str_default;
use crate::parsers::field_str_opt;
use crate::parsers::truncated;
use crate::parsers::ParseError;
use crate::stable_id::blake3_hex_of_str;
use crate::text::dec_seq;
use crate::vitest::report_rel;
use vstd::string::StrSliceExecFns;

verus! {

/// Maximum rule-name length in characters before truncation.
pub const MAX_RULE_LENGTH: usize = 256;

/// Maximum file-path length in characters before truncation.
pub const MAX_FILE_LENGTH: usize = 4096;

/// Maximum message length in characters before truncation.
pub const MAX_FINDING_MESSAGE_LENGTH: usize = 1000;

/// A parsed finding.
#[derive(Debug, Clone, PartialEq, Eq)]
pub struct Finding {
    /// Stable ID over `(rule, file, line, column)`.
    pub stable_id: String,
    /// The producing tool.
    pub tool: String,
    /// The rule name, truncated.
    pub rule: String,
    /// The workspace-relative file, truncated.
    pub file: String,
    /// Start line, at least 1.
    pub start_line: i32,
    /// Start column, at least 1.
    pub start_column: i32,
    /// End line; the start line when the report names none.
    pub end_line: i32,
    /// End column; the start column when the report names none.
    pub end_column: i32,
    /// The message, truncated.
    pub message: String,
}

/// The fields of a finding, as plain values:
/// `((stable_id, tool, rule, file), (start_line, start_column, end_line,
/// end_column), message)`.
pub open spec fn fd_view(f: Finding) -> (
    (Seq<char>, Seq<char>, Seq<char>, Seq<char>),
    (int, int, int, int),
    Seq<char>,
) {
    (
        (f.stable_id@, f.tool@, f.rule@, f.file@),
        (f.start_line as int, f.start_column as int, f.end_line as int, f.end_column as int),
        f.message@,
    )
}

/// The record views of a finding list.
pub open spec fn fd_views(v: Seq<Finding>) -> Seq<
    ((Seq<char>, Seq<char>, Seq<char>, Seq<char>), (int, int, int, int), Seq<char>),
> {
    v.map_values(|f: Finding| fd_view(f))
}

/// A line or column floored at 1.
pub open spec fn line_floor(v: int) -> int {
    if v < 1 {
        1
    } else {
        v
    }
}

/// The stable ID of a finding: the first 32 hex digits of the hash of
/// `eslint:<rule>:<file>:<line>:<column>`.
pub open spec fn eslint_sid(rule: Seq<char>, file: Seq<char>, line: int, col: int) -> Seq<char>
    recommends
        line >= 1,
        col >= 1,
{
    blake3_hex_of_str(
        "eslint:"@ + rule + ":"@ + file + ":"@ + dec_seq(line as nat) + ":"@ + dec_seq(col as nat),
    ).take(32)
}

/// Computes the stable ID of a finding.
pub fn compute_stable_id(rule: &String, file: &String, line: i32, column: i32) -> (r: String)
    requires
        1 <= line,
        1 <= column,
    ensures
        r@ == eslint_sid(rule@, file@, line as int, column as int),
        r@.len() == 32,
{
    let mut input: Vec<char> = Vec::new();
    crate::text::append_lit(&mut input, "eslint:");
    let rc = crate::text::chars_of(rule.as_str());
    crate::text::append_chars(&mut input, &rc);
    crate::text::append_lit(&mut input, ":");
    let fc = crate::text::chars_of(file.as_str());
    crate::text::append_chars(&mut input, &fc);
    crate::text::append_lit(&mut input, ":");
    let lc = crate::text::u64_to_dec(line as u64);
    crate::text::append_chars(&mut input, &lc);
    crate::text::append_lit(&mut input, ":");
    let cc = crate::text::u64_to_dec(column as u64);
    crate::text::append_chars(&mut input, &cc);
    proof {
        assert(input@ =~= "eslint:"@ + rule@ + ":"@ + file@ + ":"@ + dec_seq(line as nat) + ":"@
            + dec_seq(column as nat));
    }
    let s = crate::text::string_of(&input);
    let hex = crate::stable_id::blake3_hex_str(s.as_str());
    let r = hex.as_str().substring_char(0, 32).to_owned();
    proof {
        assert(r@ =~= eslint_sid(rule@, file@, line as int, column as int));
    }
    r
}

/// The finding of one lint message, when it is an error: nothing in the
/// outer option is a schema error; nothing in the inner option is a
/// non-error message.
pub open spec fn message_parse(j: Json, file: Seq<char>) -> Option<
    Option<((Seq<char>, Seq<char>, Seq<char>, Seq<char>), (int, int, int, int), Seq<char>)>,
> {
    if !(j is Obj) {
        Option::None
    } else {
        let rule_id = field_str_opt(j, "ruleId"@);
        let severity = field_i32_default(j, "severity"@);
        let line = field_i32_default(j, "line"@);
        let column = field_i32_default(j, "column"@);
        let end_line = field_i32_opt(j, "endLine"@);
        let end_column = field_i32_opt(j, "endColumn"@);
        let message = field_str_default(j, "message"@);
        if rule_id is None || severity is None || line is None || column is None || end_line
            is None || end_column is None || message is None {
            Option::None
        } else if severity.unwrap() != 2 {
            Option::Some(
                Option::<
                    ((Seq<char>, Seq<char>, Seq<char>, Seq<char>), (int, int, int, int), Seq<char>),
                >::None,
            )
        } else {
            let rule = truncated(
                match rule_id.unwrap() {
                    Option::Some(rid) => rid,
                    Option::None => "unknown"@,
                },
                MAX_RULE_LENGTH as int,
            );
            let msg = truncated(message.unwrap(), MAX_FINDING_MESSAGE_LENGTH as int);
            let l = line_floor(line.unwrap());
            let c = line_floor(column.unwrap());
            let el = match end_line.unwrap() {
                Option::Some(v) => line_floor(v),
                Option::None => l,
            };
            let ec = match end_column.unwrap() {
                Option::Some(v) => line_floor(v),
                Option::None => c,
            };
            Option::Some(
                Option::Some(
                    ((eslint_sid(rule, file, l, c), "eslint"@, rule, file), (l, c, el, ec), msg),
                ),
            )
        }
    }
}

/// The findings of a message list, in order.
pub open spec fn messages_parse(items: Seq<Json>, file: Seq<char>) -> Option<
    Seq<((Seq<char>, Seq<char>, Seq<char>, Seq<char>), (int, int, int, int), Seq<char>)>,
>
    decreases items.len(),
{
    if items.len() == 0 {
        Option::Some(
            Seq::<
                ((Seq<char>, Seq<char>, Seq<char>, Seq<char>), (int, int, int, int), Seq<char>),
            >::empty(),
        )
    } else {
        match (messages_parse(items.drop_last(), file), message_parse(items.last(), file)) {
            (Option::Some(rest), Option::Some(Option::Some(f))) => Option::Some(rest.push(f)),
            (Option::Some(rest), Option::Some(Option::None)) => Option::Some(rest),
            _ => Option::None,
        }
    }
}

/// The findings of one per-file result; an entry without a `filePath` is
/// skipped.
pub open spec fn file_result_parse(j: Json, root: Seq<char>) -> Option<
    Seq<((Seq<char>, Seq<char>, Seq<char>, Seq<char>), (int, int, int, int), Seq<char>)>,
> {
    if !(j is Obj) {
        Option::None
    } else {
        match field_str_opt(j, "filePath"@) {
            Option::None => Option::None,
            Option::Some(Option::None) => Option::Some(
                Seq::<
                    ((Seq<char>, Seq<char>, Seq<char>, Seq<char>), (int, int, int, int), Seq<char>),
                >::empty(),
            ),
            Option::Some(Option::Some(fp)) => {
                let file = truncated(report_rel(fp, root), MAX_FILE_LENGTH as int);
                match field_arr_default(j, "messages"@) {
                    Option::None => Option::None,
                    Option::Some(msgs) => messages_parse(msgs, file),
                }
            },
        }
    }
}

/// The findings of the whole result list, in order.
pub open spec fn files_parse(items: Seq<Json>, root: Seq<char>) -> Option<
    Seq<((Seq<char>, Seq<char>, Seq<char>, Seq<char>), (int, int, int, int), Seq<char>)>,
>
    decreases items.len(),
{
    if items.len() == 0 {
        Option::Some(
            Seq::<
                ((Seq<char>, Seq<char>, Seq<char>, Seq<char>), (int, int, int, int), Seq<char>),
            >::empty(),
        )
    } else {
        match (files_parse(items.drop_last(), root), file_result_parse(items.last(), root)) {
            (Option::Some(rest), Option::Some(fs)) => Option::Some(rest + fs),
            _ => Option::None,
        }
    }
}

/// The findings of a whole lint document; nothing when the document does
/// not match the lint schema.
pub open spec fn eslint_parse_spec(doc: Json, root: Seq<char>) -> Option<
    Seq<((Seq<char>, Seq<char>, Seq<char>, Seq<char>), (int, int, int, int), Seq<char>)>,
> {
    match doc {
        Json::Arr(items) => files_parse(items@, root),
        _ => Option::None,
    }
}

fn line_floor_exec(v: i32) -> (r: i32)
    ensures
        r as int == line_floor(v as int),
{
    if v < 1 {
        1
    } else {
        v
    }
}

/// Builds the finding of one error-level lint message.
pub fn build_finding(file: &String, j: &Json) -> (r: Result<Option<Finding>, ()>)
    ensures
        match r {
            Ok(Option::Some(f)) => message_parse(*j, file@) == Some(Option::Some(fd_view(f))),
            Ok(Option::None) => message_parse(*j, file@) == Some(
                Option::<
                    ((Seq<char>, Seq<char>, Seq<char>, Seq<char>), (int, int, int, int), Seq<char>),
                >::None,
            ),
            Err(()) => message_parse(*j, file@) is None,
        },
{
    match j {
        Json::Obj(_) => {},
        _ => {
            return Err(());
        },
    }
    let rule_id = match crate::parsers::get_str_opt(j, "ruleId") {
        Ok(v) => v,
        Err(()) => {
            return Err(());
        },
    };
    let severity = match crate::parsers::get_i32_default(j, "severity") {
        Ok(v) => v,
        Err(()) => {
            return Err(());
        },
    };
    let line = match crate::parsers::get_i32_default(j, "line") {
        Ok(v) => v,
        Err(()) => {
            return Err(());
        },
    };
    let column = match crate::parsers::get_i32_default(j, "column") {
        Ok(v) => v,
        Err(()) => {
            return Err(());
        },
    };
    let end_line = match crate::parsers::get_i32_opt(j, "endLine") {
        Ok(v) => v,
        Err(()) => {
            return Err(());
        },
    };
    let end_column = match crate::parsers::get_i32_opt(j, "endColumn") {
        Ok(v) => v,
        Err(()) => {
            return Err(());
        },
    };
    let message = match crate::parsers::get_str_default(j, "message") {
        Ok(v) => v,
        Err(()) => {
            return Err(());
        },
    };
    if severity != 2 {
        return Ok(None);
    }
    let rule_raw = match rule_id {
        Option::Some(rid) => rid,
        Option::None => "unknown".to_owned(),
    };
    let rule = crate::parsers::truncate(rule_raw.as_str(), MAX_RULE_LENGTH);
    let msg = crate::parsers::truncate(message.as_str(), MAX_FINDING_MESSAGE_LENGTH);
    let l = line_floor_exec(line);
    let c = line_floor_exec(column);
    let el = match end_line {
        Option::Some(v) => line_floor_exec(v),
        Option::None => l,
    };
    let ec = match end_column {
        Option::Some(v) => line_floor_exec(v),
        Option::None => c,
    };
    let stable_id = compute_stable_id(&rule, file, l, c);
    Ok(
        Some(
            Finding {
                stable_id,
                tool: "eslint".to_owned(),
                rule,
                file: file.clone(),
                start_line: l,
                start_column: c,
                end_line: el,
                end_column: ec,
                message: msg,
            },
        ),
    )
}

fn parse_file_result(j: &Json, root: &str, out: &mut Vec<Finding>) -> (r: Result<(), ()>)
    ensures
        match r {
            Ok(()) => file_result_parse(*j, root@) is Some && fd_views(final (out)@) == fd_views(
                old(out)@,
            ) + file_result_parse(*j, root@).unwrap(),
            Err(()) => file_result_parse(*j, root@) is None,
        },
{
    match j {
        Json::Obj(_) => {},
        _ => {
            return Err(());
        },
    }
    let fp = match crate::parsers::get_str_opt(j, "filePath") {
        Ok(Option::Some(fp)) => fp,
        Ok(Option::None) => {
            proof {
                assert(fd_views(out@) =~= fd_views(out@) + file_result_parse(
                    *j,
                    root@,
                ).unwrap());
            }
            return Ok(());
        },
        Err(()) => {
            return Err(());
        },
    };
    let rel = crate::vitest::normalize_report_path(fp.as_str(), root);
    let file = crate::parsers::truncate(rel.as_str(), MAX_FILE_LENGTH);
    let empty: Vec<Json> = Vec::new();
    let msgs = match crate::parsers::get_arr_default(j, "messages", &empty) {
        Ok(a) => a,
        Err(()) => {
            return Err(());
        },
    };
    let ghost items = msgs@;
    let ghost o0 = fd_views(out@);
    proof {
        assert(file_result_parse(*j, root@) == messages_parse(items, file@));
    }
    let mut i: usize = 0;
    while i < msgs.len()
        invariant
            i <= items.len(),
            items == msgs@,
            file_result_parse(*j, root@) == messages_parse(items, file@),
            messages_parse(items.take(i as int), file@) == Some(
                fd_views(out@).skip(o0.len() as int),
            ),
            fd_views(out@).take(o0.len() as int) == o0,
            o0.len() <= fd_views(out@).len(),
        decreases items.len() - i,
    {
        proof {
            assert(items.take(i as int + 1).drop_last() =~= items.take(i as int));
            assert(items.take(i as int + 1).last() == items[i as int]);
        }
        let ghost before = fd_views(out@);
        match build_finding(&file, &msgs[i]) {
            Ok(Option::Some(f)) => {
                out.push(f);
                proof {
                    assert(fd_views(out@) =~= before.push(fd_view(out@.last())));
                    assert(fd_views(out@).skip(o0.len() as int) =~= before.skip(
                        o0.len() as int,
                    ).push(fd_view(out@.last())));
                    assert(fd_views(out@).take(o0.len() as int) =~= before.take(o0.len() as int));
                }
            },
            Ok(Option::None) => {},
            Err(()) => {
                proof {
                    lemma_messages_err(items, i as int, file@);
                }
                return Err(());
            },
        }
        i += 1;
    }
    proof {
        assert(items.take(items.len() as int) =~= items);
        assert(fd_views(out@) =~= o0 + fd_views(out@).skip(o0.len() as int));
    }
    Ok(())
}

/// One failing message entry fails the whole list.
proof fn lemma_messages_err(items: Seq<Json>, i: int, file: Seq<char>)
    requires
        0 <= i < items.len(),
        message_parse(items[i], file) is None,
    ensures
        messages_parse(items, file) is None,
    decreases items.len(),
{
    if items.len() > 0 {
        if i < items.len() - 1 {
            lemma_messages_err(items.drop_last(), i, file);
        }
    }
}

/// One failing file entry fails the whole list.
proof fn lemma_files_err(items: Seq<Json>, i: int, root: Seq<char>)
    requires
        0 <= i < items.len(),
        file_result_parse(items[i], root) is None,
    ensures
        files_parse(items, root) is None,
    decreases items.len(),
{
    if items.len() > 0 {
        if i < items.len() - 1 {
            lemma_files_err(items.drop_last(), i, root);
        }
    }
}

/// Parses a lint JSON report and extracts all error-level findings.
///
/// Succeeds exactly when the text is valid JSON matching the lint schema;
/// the records then are, in order, what the schema's extraction yields on
/// the decoded document.
pub fn parse(json_content: &str, workspace_root: &str) -> (r: Result<Vec<Finding>, ParseError>)
    ensures
        match r {
            Ok(v) => json_of(json_content@) is Some && eslint_parse_spec(
                json_of(json_content@).unwrap(),
                workspace_root@,
            ) == Some(fd_views(v@)),
            Err(_) => json_of(json_content@) is None || eslint_parse_spec(
                json_of(json_content@).unwrap(),
                workspace_root@,
            ) is None,
        },
{
    let doc = match crate::json::json_decode(json_content) {
        Ok(d) => d,
        Err(e) => {
            return Err(ParseError::InvalidJson(e));
        },
    };
    let items = match &doc {
        Json::Arr(items) => items,
        _ => {
            return Err(ParseError::InvalidJson(lint_schema_note()));
        },
    };
    let mut findings: Vec<Finding> = Vec::new();
    let ghost iv = items@;
    let ghost gdoc = doc;
    proof {
        assert(eslint_parse_spec(gdoc, workspace_root@) == files_parse(iv, workspace_root@));
    }
    let mut i: usize = 0;
    while i < items.len()
        invariant
            i <= iv.len(),
            iv == items@,
            json_of(json_content@) == Some(gdoc),
            eslint_parse_spec(gdoc, workspace_root@) == files_parse(iv, workspace_root@),
            files_parse(iv.take(i as int), workspace_root@) == Some(fd_views(findings@)),
        decreases iv.len() - i,
    {
        proof {
            assert(iv.take(i as int + 1).drop_last() =~= iv.take(i as int));
            assert(iv.take(i as int + 1).last() == iv[i as int]);
        }
        match parse_file_result(&items[i], workspace_root, &mut findings) {
            Ok(()) => {},
            Err(()) => {
                proof {
                    lemma_files_err(iv, i as int, workspace_root@);
                }
                return Err(ParseError::InvalidJson(lint_schema_note()));
            },
        }
        i += 1;
    }
    proof {
        assert(iv.take(iv.len() as int) =~= iv);
    }
    Ok(findings)
}

fn lint_schema_note() -> String {
    "report does not match the lint schema".to_owned()
}

} // verus!
