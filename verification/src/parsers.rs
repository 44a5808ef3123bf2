//! Shared artifact-parser pieces: the parse error, bounded-field
//! truncation, and typed field access over decoded JSON.
//!
//! Field access mirrors how the artifact schemas read JSON: a missing
//! field falls back to a default, a field of the wrong type is a schema
//! error that fails the whole parse.

use vstd::prelude::*;

use crate::json::Json;
use crate::text::chars_of;

verus! {

/// Errors that can occur during artifact parsing.
#[derive(Debug)]
pub enum ParseError {
    /// The artifact was not valid JSON, or did not match the schema.
    InvalidJson(String),
}

/// Truncation to a character budget: a string over the budget keeps its
/// first `max - 3` characters and gains a `...` tail.
pub open spec fn truncated(s: Seq<char>, max: int) -> Seq<char> {
    if s.len() > max {
        s.take(max - 3) + "..."@
    } else {
        s
    }
}

/// Truncation never splits a character and lands exactly on the budget:
/// the character count of a truncated field equals its maximum, and a
/// field within the budget is untouched.
pub proof fn lemma_truncated_len(s: Seq<char>, max: int)
    requires
        3 <= max,
    ensures
        s.len() > max ==> truncated(s, max).len() == max,
        s.len() <= max ==> truncated(s, max) == s,
{
    reveal_strlit("...");
}

/// Truncates a string to at most `max_chars` characters, appending `...`
/// when anything was cut. Works on characters, never on raw bytes.
pub fn truncate(s: &str, max_chars: usize) -> (r: String)
    requires
        3 <= max_chars,
    ensures
        r@ == truncated(s@, max_chars as int),
{
    let cs = chars_of(s);
    if cs.len() > max_chars {
        let keep = max_chars - 3;
        let mut out: Vec<char> = Vec::new();
        let mut i: usize = 0;
        while i < keep
            invariant
                i <= keep,
                keep <= cs@.len(),
                cs@ == s@,
                out@ == s@.take(i as int),
            decreases keep - i,
        {
            proof {
                assert(s@.take(i as int + 1) =~= s@.take(i as int).push(s@[i as int]));
            }
            out.push(cs[i]);
            i += 1;
        }
        crate::text::append_lit(&mut out, "...");
        let r = crate::text::string_of(&out);
        proof {
            assert(r@ =~= truncated(s@, max_chars as int));
        }
        r
    } else {
        s.to_owned()
    }
}

/// A `String` field with a default: an absent field reads as empty, a
/// non-string value is a schema error.
pub open spec fn field_str_default(o: Json, key: Seq<char>) -> Option<Seq<char>> {
    match o.get_spec(key) {
        Option::None => Option::Some(Seq::<char>::empty()),
        Option::Some(Json::Str(s)) => Option::Some(s@),
        Option::Some(_) => Option::None,
    }
}

/// An optional `String` field: absent and `null` read as nothing, a value
/// of another type is a schema error.
pub open spec fn field_str_opt(o: Json, key: Seq<char>) -> Option<Option<Seq<char>>> {
    match o.get_spec(key) {
        Option::None => Option::Some(Option::<Seq<char>>::None),
        Option::Some(Json::Null) => Option::Some(Option::<Seq<char>>::None),
        Option::Some(Json::Str(s)) => Option::Some(Option::Some(s@)),
        Option::Some(_) => Option::None,
    }
}

/// An array field with a default: an absent field reads as empty, a
/// non-array value is a schema error.
pub open spec fn field_arr_default(o: Json, key: Seq<char>) -> Option<Seq<Json>> {
    match o.get_spec(key) {
        Option::None => Option::Some(Seq::<Json>::empty()),
        Option::Some(Json::Arr(items)) => Option::Some(items@),
        Option::Some(_) => Option::None,
    }
}

/// A 32-bit integer field with a default: an absent field reads as zero, a
/// non-integer or out-of-range value is a schema error.
pub open spec fn field_i32_default(o: Json, key: Seq<char>) -> Option<int> {
    match o.get_spec(key) {
        Option::None => Option::Some(0int),
        Option::Some(Json::Int(v)) => if i32::MIN <= v <= i32::MAX {
            Option::Some(v as int)
        } else {
            Option::None
        },
        Option::Some(_) => Option::None,
    }
}

/// An optional 32-bit integer field: absent and `null` read as nothing.
pub open spec fn field_i32_opt(o: Json, key: Seq<char>) -> Option<Option<int>> {
    match o.get_spec(key) {
        Option::None => Option::Some(Option::<int>::None),
        Option::Some(Json::Null) => Option::Some(Option::<int>::None),
        Option::Some(Json::Int(v)) => if i32::MIN <= v <= i32::MAX {
            Option::Some(Option::Some(v as int))
        } else {
            Option::None
        },
        Option::Some(_) => Option::None,
    }
}

/// The strings of an all-string array; a non-string element is a schema
/// error.
pub open spec fn str_elems(items: Seq<Json>) -> Option<Seq<Seq<char>>>
    decreases items.len(),
{
    if items.len() == 0 {
        Option::Some(Seq::<Seq<char>>::empty())
    } else {
        match (str_elems(items.drop_last()), items.last()) {
            (Option::Some(rest), Json::Str(s)) => Option::Some(rest.push(s@)),
            _ => Option::None,
        }
    }
}

/// Reads a defaulted string field; an error stands for a schema mismatch.
pub fn get_str_default(o: &Json, key: &str) -> (r: Result<String, ()>)
    ensures
        match r {
            Ok(s) => field_str_default(*o, key@) == Some(s@),
            Err(()) => field_str_default(*o, key@) is None,
        },
{
    match o.get(key) {
        Option::None => Ok(String::new()),
        Option::Some(j) => match j {
            Json::Str(s) => Ok(s.clone()),
            _ => Err(()),
        },
    }
}

/// Reads an optional string field.
pub fn get_str_opt(o: &Json, key: &str) -> (r: Result<Option<String>, ()>)
    ensures
        match r {
            Ok(Option::Some(s)) => field_str_opt(*o, key@) == Some(Option::Some(s@)),
            Ok(Option::None) => field_str_opt(*o, key@) == Some(Option::<Seq<char>>::None),
            Err(()) => field_str_opt(*o, key@) is None,
        },
{
    match o.get(key) {
        Option::None => Ok(Option::None),
        Option::Some(j) => match j {
            Json::Null => Ok(Option::None),
            Json::Str(s) => Ok(Option::Some(s.clone())),
            _ => Err(()),
        },
    }
}

/// Reads a defaulted array field, borrowing the elements.
pub fn get_arr_default<'a>(o: &'a Json, key: &str, empty: &'a Vec<Json>) -> (r: Result<
    &'a Vec<Json>,
    (),
>)
    requires
        empty@.len() == 0,
    ensures
        match r {
            Ok(items) => field_arr_default(*o, key@) == Some(items@),
            Err(()) => field_arr_default(*o, key@) is None,
        },
{
    match o.get(key) {
        Option::None => {
            proof {
                assert(empty@ =~= Seq::<Json>::empty());
            }
            Ok(empty)
        },
        Option::Some(j) => match j {
            Json::Arr(items) => Ok(items),
            _ => Err(()),
        },
    }
}

/// Reads a defaulted 32-bit integer field.
pub fn get_i32_default(o: &Json, key: &str) -> (r: Result<i32, ()>)
    ensures
        match r {
            Ok(v) => field_i32_default(*o, key@) == Some(v as int),
            Err(()) => field_i32_default(*o, key@) is None,
        },
{
    match o.get(key) {
        Option::None => Ok(0),
        Option::Some(j) => match j {
            Json::Int(v) => {
                let v = *v;
                if i32::MIN as i64 <= v && v <= i32::MAX as i64 {
                    Ok(v as i32)
                } else {
                    Err(())
                }
            },
            _ => Err(()),
        },
    }
}

/// Reads an optional 32-bit integer field.
pub fn get_i32_opt(o: &Json, key: &str) -> (r: Result<Option<i32>, ()>)
    ensures
        match r {
            Ok(Option::Some(v)) => field_i32_opt(*o, key@) == Some(Option::Some(v as int)),
            Ok(Option::None) => field_i32_opt(*o, key@) == Some(Option::<int>::None),
            Err(()) => field_i32_opt(*o, key@) is None,
        },
{
    match o.get(key) {
        Option::None => Ok(Option::None),
        Option::Some(j) => match j {
            Json::Null => Ok(Option::None),
            Json::Int(v) => {
                let v = *v;
                if i32::MIN as i64 <= v && v <= i32::MAX as i64 {
                    Ok(Option::Some(v as i32))
                } else {
                    Err(())
                }
            },
            _ => Err(()),
        },
    }
}

/// Collects the strings of an all-string array.
pub fn get_str_elems(items: &Vec<Json>) -> (r: Result<Vec<String>, ()>)
    ensures
        match r {
            Ok(v) => str_elems(items@) == Some(crate::graph::row_view(v@)),
            Err(()) => str_elems(items@) is None,
        },
{
    let mut out: Vec<String> = Vec::new();
    let mut i: usize = 0;
    while i < items.len()
        invariant
            i <= items@.len(),
            str_elems(items@.take(i as int)) == Some(crate::graph::row_view(out@)),
        decreases items@.len() - i,
    {
        proof {
            assert(items@.take(i as int + 1).drop_last() =~= items@.take(i as int));
            assert(items@.take(i as int + 1).last() == items@[i as int]);
        }
        let ghost o0 = crate::graph::row_view(out@);
        match &items[i] {
            Json::Str(s) => {
                out.push(s.clone());
                proof {
                    assert(crate::graph::row_view(out@) =~= o0.push(out@.last()@));
                }
            },
            _ => {
                proof {
                    lemma_str_elems_err(items@, i as int);
                }
                return Err(());
            },
        }
        i += 1;
    }
    proof {
        assert(items@.take(items@.len() as int) =~= items@);
    }
    Ok(out)
}

/// One non-string element fails the whole all-string read.
proof fn lemma_str_elems_err(items: Seq<Json>, i: int)
    requires
        0 <= i < items.len(),
        !(items[i] is Str),
    ensures
        str_elems(items) is None,
    decreases items.len(),
{
    if items.len() > 0 {
        if i == items.len() - 1 {
        } else {
            lemma_str_elems_err(items.drop_last(), i);
        }
    }
}

} // verus!
