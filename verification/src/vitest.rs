//! Test-runner JSON parsing: extracts test failures from a report.
//!
//! The report holds `testResults`, one entry per test file, each with
//! `assertionResults`. A failed assertion becomes a failure record with a
//! `>`-joined test identifier; a failed file without assertions but with a
//! message becomes a synthetic `<file>::file-error` record. Messages are
//! truncated to a character budget.

use vstd::prelude::*;

use crate::json::json_of;
use crate::json::Json;
use crate::parsers::field_arr_default;
use crate::parsers::field_str_default;
use crate::parsers::field_str_opt;
use crate::parsers::str_elems;
use crate::parsers::truncated;
use crate::parsers::ParseError;
use crate::text::starts_with;

verus! {

/// Maximum message length in characters before truncation.
pub const MAX_MESSAGE_LENGTH: usize = 1000;

/// A parsed test failure.
#[derive(Debug, Clone, PartialEq, Eq)]
pub struct TestFailure {
    /// The `>`-joined ancestor titles and title, or `<file>::file-error`.
    pub test_id: String,
    /// The workspace-relative test file.
    pub file: String,
    /// The first failure message, truncated.
    pub message: String,
}

/// The fields of a failure record, as character sequences:
/// `(test_id, file, message)`.
pub open spec fn tf_view(t: TestFailure) -> (Seq<char>, Seq<char>, Seq<char>) {
    (t.test_id@, t.file@, t.message@)
}

/// The record views of a failure list.
pub open spec fn tf_views(v: Seq<TestFailure>) -> Seq<(Seq<char>, Seq<char>, Seq<char>)> {
    v.map_values(|t: TestFailure| tf_view(t))
}

/// Path normalization for report paths: the workspace-root prefix is
/// stripped when present, together with one separating `/`.
pub open spec fn report_rel(p: Seq<char>, root: Seq<char>) -> Seq<char> {
    if starts_with(p, root) {
        let st = p.skip(root.len() as int);
        if st.len() > 0 && st[0] == '/' {
            st.skip(1)
        } else {
            st
        }
    } else {
        p
    }
}

/// Strips the workspace-root prefix (and one `/`) from a report path.
pub fn normalize_report_path(p: &str, root: &str) -> (r: String)
    ensures
        r@ == report_rel(p@, root@),
{
    let pc = crate::text::chars_of(p);
    let rc = crate::text::chars_of(root);
    if crate::text::vec_starts_with(&pc, &rc) {
        let mut start: usize = rc.len();
        proof {
            assert(p@.skip(root@.len() as int).len() > 0 ==> p@.skip(root@.len() as int)[0] == p@[
                root@.len() as int]);
        }
        if start < pc.len() && pc[start] == '/' {
            start = start + 1;
            proof {
                assert(p@.skip(root@.len() as int).skip(1) =~= p@.skip(root@.len() as int + 1));
            }
        }
        let mut out: Vec<char> = Vec::new();
        let mut i: usize = start;
        while i < pc.len()
            invariant
                start <= i <= pc@.len(),
                pc@ == p@,
                out@ == p@.subrange(start as int, i as int),
            decreases pc@.len() - i,
        {
            out.push(pc[i]);
            i += 1;
        }
        proof {
            assert(out@ =~= p@.skip(start as int));
        }
        crate::text::string_of(&out)
    } else {
        p.to_owned()
    }
}

/// Titles joined by the separator, in order.
pub open spec fn joined_titles(parts: Seq<Seq<char>>, sep: Seq<char>) -> Seq<char>
    decreases parts.len(),
{
    if parts.len() == 0 {
        Seq::<char>::empty()
    } else if parts.len() == 1 {
        parts.last()
    } else {
        joined_titles(parts.drop_last(), sep) + sep + parts.last()
    }
}

/// The canonical test identifier: the ancestor titles and the title,
/// joined by ` > `; the bare title when there are no ancestors.
pub open spec fn test_id_of(ancestors: Seq<Seq<char>>, title: Seq<char>) -> Seq<char> {
    if ancestors.len() == 0 {
        title
    } else {
        joined_titles(ancestors, " > "@) + " > "@ + title
    }
}

/// Builds the canonical test identifier.
pub fn build_test_id(ancestor_titles: &Vec<String>, title: &String) -> (r: String)
    ensures
        r@ == test_id_of(crate::graph::row_view(ancestor_titles@), title@),
{
    if ancestor_titles.len() == 0 {
        return title.clone();
    }
    let mut out: Vec<char> = Vec::new();
    let first = crate::text::chars_of(ancestor_titles[0].as_str());
    crate::text::append_chars(&mut out, &first);
    proof {
        assert(crate::graph::row_view(ancestor_titles@).take(1).drop_last()
            =~= Seq::<Seq<char>>::empty());
        assert(out@ =~= joined_titles(crate::graph::row_view(ancestor_titles@).take(1), " > "@));
    }
    let mut i: usize = 1;
    while i < ancestor_titles.len()
        invariant
            1 <= i <= ancestor_titles@.len(),
            out@ == joined_titles(
                crate::graph::row_view(ancestor_titles@).take(i as int),
                " > "@,
            ),
        decreases ancestor_titles@.len() - i,
    {
        proof {
            assert(crate::graph::row_view(ancestor_titles@).take(i as int + 1).drop_last()
                =~= crate::graph::row_view(ancestor_titles@).take(i as int));
            assert(crate::graph::row_view(ancestor_titles@).take(i as int + 1).last()
                == ancestor_titles@[i as int]@);
        }
        crate::text::append_lit(&mut out, " > ");
        let part = crate::text::chars_of(ancestor_titles[i].as_str());
        crate::text::append_chars(&mut out, &part);
        i += 1;
    }
    proof {
        assert(crate::graph::row_view(ancestor_titles@).take(ancestor_titles@.len() as int)
            =~= crate::graph::row_view(ancestor_titles@));
    }
    crate::text::append_lit(&mut out, " > ");
    let tc = crate::text::chars_of(title.as_str());
    crate::text::append_chars(&mut out, &tc);
    crate::text::string_of(&out)
}

/// The failure record of one assertion entry, when it failed: nothing in
/// the outer option is a schema error; nothing in the inner option is a
/// non-failing assertion.
pub open spec fn assertion_parse(j: Json, file: Seq<char>) -> Option<
    Option<(Seq<char>, Seq<char>, Seq<char>)>,
> {
    if !(j is Obj) {
        Option::None
    } else {
        let title = field_str_default(j, "title"@);
        let status = field_str_default(j, "status"@);
        let anc_arr = field_arr_default(j, "ancestorTitles"@);
        let msg_arr = field_arr_default(j, "failureMessages"@);
        if title is None || status is None || anc_arr is None || msg_arr is None {
            Option::None
        } else {
            let anc = str_elems(anc_arr.unwrap());
            let msgs = str_elems(msg_arr.unwrap());
            if anc is None || msgs is None {
                Option::None
            } else if status.unwrap() == "failed"@ {
                let raw = if msgs.unwrap().len() > 0 {
                    msgs.unwrap().first()
                } else {
                    Seq::<char>::empty()
                };
                Option::Some(
                    Option::Some(
                        (
                            test_id_of(anc.unwrap(), title.unwrap()),
                            file,
                            truncated(raw, MAX_MESSAGE_LENGTH as int),
                        ),
                    ),
                )
            } else {
                Option::Some(Option::<(Seq<char>, Seq<char>, Seq<char>)>::None)
            }
        }
    }
}

/// The failure records of one test-file entry; nothing on a schema error.
pub open spec fn result_parse(j: Json, root: Seq<char>) -> Option<
    Seq<(Seq<char>, Seq<char>, Seq<char>)>,
> {
    if !(j is Obj) {
        Option::None
    } else {
        match j.get_spec("name"@) {
            Option::Some(Json::Str(name)) => {
                let file = report_rel(name@, root);
                let status = field_str_default(j, "status"@);
                let message = field_str_opt(j, "message"@);
                let assertions = field_arr_default(j, "assertionResults"@);
                if status is None || message is None || assertions is None {
                    Option::None
                } else if status.unwrap() == "failed"@ && assertions.unwrap().len() == 0
                    && message.unwrap() is Some {
                    Option::Some(
                        seq![
                            (
                                file + "::file-error"@,
                                file,
                                truncated(message.unwrap().unwrap(), MAX_MESSAGE_LENGTH as int),
                            ),
                        ],
                    )
                } else {
                    assertions_parse(assertions.unwrap(), file)
                }
            },
            _ => Option::None,
        }
    }
}

/// The failure records of an assertion list, in order.
pub open spec fn assertions_parse(items: Seq<Json>, file: Seq<char>) -> Option<
    Seq<(Seq<char>, Seq<char>, Seq<char>)>,
>
    decreases items.len(),
{
    if items.len() == 0 {
        Option::Some(Seq::<(Seq<char>, Seq<char>, Seq<char>)>::empty())
    } else {
        match (assertions_parse(items.drop_last(), file), assertion_parse(items.last(), file)) {
            (Option::Some(rest), Option::Some(Option::Some(tf))) => Option::Some(rest.push(tf)),
            (Option::Some(rest), Option::Some(Option::None)) => Option::Some(rest),
            _ => Option::None,
        }
    }
}

/// The failure records of the whole result list, in order.
pub open spec fn results_parse(items: Seq<Json>, root: Seq<char>) -> Option<
    Seq<(Seq<char>, Seq<char>, Seq<char>)>,
>
    decreases items.len(),
{
    if items.len() == 0 {
        Option::Some(Seq::<(Seq<char>, Seq<char>, Seq<char>)>::empty())
    } else {
        match (results_parse(items.drop_last(), root), result_parse(items.last(), root)) {
            (Option::Some(rest), Option::Some(tfs)) => Option::Some(rest + tfs),
            _ => Option::None,
        }
    }
}

/// The failure records of a whole report document; nothing when the
/// document does not match the report schema.
pub open spec fn vitest_parse_spec(doc: Json, root: Seq<char>) -> Option<
    Seq<(Seq<char>, Seq<char>, Seq<char>)>,
> {
    if !(doc is Obj) {
        Option::None
    } else {
        match field_arr_default(doc, "testResults"@) {
            Option::None => Option::None,
            Option::Some(items) => results_parse(items, root),
        }
    }
}

fn parse_assertion(j: &Json, file: &String) -> (r: Result<Option<TestFailure>, ()>)
    ensures
        match r {
            Ok(Option::Some(tf)) => assertion_parse(*j, file@) == Some(Option::Some(tf_view(tf))),
            Ok(Option::None) => assertion_parse(*j, file@) == Some(
                Option::<(Seq<char>, Seq<char>, Seq<char>)>::None,
            ),
            Err(()) => assertion_parse(*j, file@) is None,
        },
{
    match j {
        Json::Obj(_) => {},
        _ => {
            return Err(());
        },
    }
    let title = match crate::parsers::get_str_default(j, "title") {
        Ok(t) => t,
        Err(()) => {
            return Err(());
        },
    };
    let status = match crate::parsers::get_str_default(j, "status") {
        Ok(t) => t,
        Err(()) => {
            return Err(());
        },
    };
    let empty: Vec<Json> = Vec::new();
    let anc_arr = match crate::parsers::get_arr_default(j, "ancestorTitles", &empty) {
        Ok(a) => a,
        Err(()) => {
            return Err(());
        },
    };
    let msg_arr = match crate::parsers::get_arr_default(j, "failureMessages", &empty) {
        Ok(a) => a,
        Err(()) => {
            return Err(());
        },
    };
    let ancestors = match crate::parsers::get_str_elems(anc_arr) {
        Ok(v) => v,
        Err(()) => {
            return Err(());
        },
    };
    let messages = match crate::parsers::get_str_elems(msg_arr) {
        Ok(v) => v,
        Err(()) => {
            return Err(());
        },
    };
    if crate::text::str_eq(status.as_str(), "failed") {
        let test_id = build_test_id(&ancestors, &title);
        let message = if messages.len() > 0 {
            crate::parsers::truncate(messages[0].as_str(), MAX_MESSAGE_LENGTH)
        } else {
            proof {
                reveal_strlit("");
                assert(truncated(""@, MAX_MESSAGE_LENGTH as int) =~= Seq::<char>::empty());
            }
            String::new()
        };
        Ok(Some(TestFailure { test_id, file: file.clone(), message }))
    } else {
        Ok(None)
    }
}

fn parse_result(j: &Json, root: &str, out: &mut Vec<TestFailure>) -> (r: Result<(), ()>)
    ensures
        match r {
            Ok(()) => result_parse(*j, root@) is Some && tf_views(final (out)@) == tf_views(
                old(out)@,
            ) + result_parse(*j, root@).unwrap(),
            Err(()) => result_parse(*j, root@) is None,
        },
{
    match j {
        Json::Obj(_) => {},
        _ => {
            return Err(());
        },
    }
    let name = match j.get("name") {
        Option::Some(Json::Str(s)) => s.clone(),
        _ => {
            return Err(());
        },
    };
    let file = normalize_report_path(name.as_str(), root);
    let status = match crate::parsers::get_str_default(j, "status") {
        Ok(t) => t,
        Err(()) => {
            return Err(());
        },
    };
    let message = match crate::parsers::get_str_opt(j, "message") {
        Ok(m) => m,
        Err(()) => {
            return Err(());
        },
    };
    let empty: Vec<Json> = Vec::new();
    let assertions = match crate::parsers::get_arr_default(j, "assertionResults", &empty) {
        Ok(a) => a,
        Err(()) => {
            return Err(());
        },
    };
    if crate::text::str_eq(status.as_str(), "failed") && assertions.len() == 0
        && message.is_some() {
        let msg = match message {
            Option::Some(m) => m,
            Option::None => String::new(),
        };
        let truncated_msg = crate::parsers::truncate(msg.as_str(), MAX_MESSAGE_LENGTH);
        let mut test_id = file.clone();
        test_id.append("::file-error");
        let tf = TestFailure { test_id, file, message: truncated_msg };
        let ghost o0 = tf_views(out@);
        out.push(tf);
        proof {
            assert(tf_views(out@) =~= o0 + result_parse(*j, root@).unwrap());
        }
        return Ok(());
    }
    let ghost items = assertions@;
    let ghost o0 = tf_views(out@);
    proof {
        assert(result_parse(*j, root@) == assertions_parse(items, file@));
    }
    let mut i: usize = 0;
    while i < assertions.len()
        invariant
            i <= items.len(),
            items == assertions@,
            file@ == report_rel(name@, root@),
            result_parse(*j, root@) == assertions_parse(items, file@),
            assertions_parse(items.take(i as int), file@) == Some(tf_views(out@).skip(o0.len() as int)),
            tf_views(out@).take(o0.len() as int) == o0,
            o0.len() <= tf_views(out@).len(),
        decreases items.len() - i,
    {
        proof {
            assert(items.take(i as int + 1).drop_last() =~= items.take(i as int));
            assert(items.take(i as int + 1).last() == items[i as int]);
        }
        let ghost before = tf_views(out@);
        match parse_assertion(&assertions[i], &file) {
            Ok(Option::Some(tf)) => {
                out.push(tf);
                proof {
                    assert(tf_views(out@) =~= before.push(tf_view(out@.last())));
                    assert(tf_views(out@).skip(o0.len() as int) =~= before.skip(
                        o0.len() as int,
                    ).push(tf_view(out@.last())));
                    assert(tf_views(out@).take(o0.len() as int) =~= before.take(o0.len() as int));
                }
            },
            Ok(Option::None) => {},
            Err(()) => {
                proof {
                    lemma_assertions_err(items, i as int, file@);
                }
                return Err(());
            },
        }
        i += 1;
    }
    proof {
        assert(items.take(items.len() as int) =~= items);
        assert(tf_views(out@) =~= o0 + tf_views(out@).skip(o0.len() as int));
    }
    Ok(())
}

/// One failing assertion entry fails the whole list.
proof fn lemma_assertions_err(items: Seq<Json>, i: int, file: Seq<char>)
    requires
        0 <= i < items.len(),
        assertion_parse(items[i], file) is None,
    ensures
        assertions_parse(items, file) is None,
    decreases items.len(),
{
    if items.len() > 0 {
        if i < items.len() - 1 {
            lemma_assertions_err(items.drop_last(), i, file);
        }
    }
}

/// One failing result entry fails the whole list.
proof fn lemma_results_err(items: Seq<Json>, i: int, root: Seq<char>)
    requires
        0 <= i < items.len(),
        result_parse(items[i], root) is None,
    ensures
        results_parse(items, root) is None,
    decreases items.len(),
{
    if items.len() > 0 {
        if i < items.len() - 1 {
            lemma_results_err(items.drop_last(), i, root);
        }
    }
}

/// Parses a test-runner JSON report and extracts all test failures.
///
/// Succeeds exactly when the text is valid JSON matching the report
/// schema; the records then are, in order, what the schema's extraction
/// yields on the decoded document.
pub fn parse(json_content: &str, workspace_root: &str) -> (r: Result<Vec<TestFailure>, ParseError>)
    ensures
        match r {
            Ok(v) => json_of(json_content@) is Some && vitest_parse_spec(
                json_of(json_content@).unwrap(),
                workspace_root@,
            ) == Some(tf_views(v@)),
            Err(_) => json_of(json_content@) is None || vitest_parse_spec(
                json_of(json_content@).unwrap(),
                workspace_root@,
            ) is None,
        },
{
    let doc = match crate::json::json_decode(json_content) {
        Ok(d) => d,
        Err(e) => {
            return Err(ParseError::InvalidJson(e));
        },
    };
    match &doc {
        Json::Obj(_) => {},
        _ => {
            return Err(ParseError::InvalidJson(schema_note()));
        },
    }
    let empty: Vec<Json> = Vec::new();
    let items = match crate::parsers::get_arr_default(&doc, "testResults", &empty) {
        Ok(a) => a,
        Err(()) => {
            return Err(ParseError::InvalidJson(schema_note()));
        },
    };
    let mut failures: Vec<TestFailure> = Vec::new();
    let ghost iv = items@;
    let ghost gdoc = doc;
    proof {
        assert(vitest_parse_spec(gdoc, workspace_root@) == results_parse(iv, workspace_root@));
    }
    let mut i: usize = 0;
    while i < items.len()
        invariant
            i <= iv.len(),
            iv == items@,
            json_of(json_content@) == Some(gdoc),
            vitest_parse_spec(gdoc, workspace_root@) == results_parse(iv, workspace_root@),
            results_parse(iv.take(i as int), workspace_root@) == Some(tf_views(failures@)),
        decreases iv.len() - i,
    {
        proof {
            assert(iv.take(i as int + 1).drop_last() =~= iv.take(i as int));
            assert(iv.take(i as int + 1).last() == iv[i as int]);
        }
        match parse_result(&items[i], workspace_root, &mut failures) {
            Ok(()) => {},
            Err(()) => {
                proof {
                    lemma_results_err(iv, i as int, workspace_root@);
                }
                return Err(ParseError::InvalidJson(schema_note()));
            },
        }
        i += 1;
    }
    proof {
        assert(iv.take(iv.len() as int) =~= iv);
    }
    Ok(failures)
}

fn schema_note() -> String {
    "report does not match the test-runner schema".to_owned()
}

} // verus!
