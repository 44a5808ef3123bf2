//! Path normalization and package-scope validation.
//!
//! Paths are normalized to forward slashes with runs of separators collapsed.
//! A package scope is a short path fragment used to restrict queries; it must
//! stay free of traversal components and unexpected characters.

use vstd::prelude::*;

use crate::text::chars_of;
use crate::text::string_of;

verus! {

/// Maximum length of a package scope, in characters.
pub const MAX_PACKAGE_SCOPE_LEN: usize = 1024;

/// Reasons a package scope is rejected.
#[derive(Debug, Clone, Copy, PartialEq, Eq, Structural)]
pub enum PathError {
    /// The scope contains a `..` path component.
    PathTraversal,
    /// The scope contains a character outside the allowed set.
    InvalidChars,
    /// The scope is longer than the given maximum.
    TooLong(usize),
}

/// A path separator in raw input: forward or backward slash.
pub open spec fn is_sep(c: char) -> bool {
    c == '/' || c == '\\'
}

/// Slash normalization: backslashes become forward slashes and runs of
/// separators collapse to a single `/`.
pub open spec fn normalize_seq(s: Seq<char>) -> Seq<char>
    decreases s.len(),
{
    if s.len() == 0 {
        Seq::<char>::empty()
    } else {
        let prefix = normalize_seq(s.drop_last());
        if is_sep(s.last()) {
            if s.len() >= 2 && is_sep(s[s.len() - 2]) {
                prefix
            } else {
                prefix.push('/')
            }
        } else {
            prefix.push(s.last())
        }
    }
}

/// The normalized form is never empty for non-empty input; it ends with
/// the last character for input ending in a non-separator, and with `/`
/// for input ending in a separator.
proof fn lemma_normalize_last(s: Seq<char>)
    ensures
        s.len() > 0 ==> normalize_seq(s).len() > 0,
        s.len() > 0 && !is_sep(s.last()) ==> normalize_seq(s).last() == s.last(),
        s.len() > 0 && is_sep(s.last()) ==> normalize_seq(s).last() == '/',
    decreases s.len(),
{
    if s.len() > 0 {
        lemma_normalize_last(s.drop_last());
    }
}

/// Normalization is clean: the result holds no backslash and never two
/// adjacent slashes.
pub proof fn lemma_normalize_clean(s: Seq<char>)
    ensures
        forall|i: int|
            0 <= i < normalize_seq(s).len() ==> #[trigger] normalize_seq(s)[i] != '\\',
        forall|i: int|
            0 <= i < normalize_seq(s).len() - 1 && #[trigger] normalize_seq(s)[i] == '/'
                ==> normalize_seq(s)[i + 1] != '/',
    decreases s.len(),
{
    if s.len() > 0 {
        lemma_normalize_clean(s.drop_last());
        lemma_normalize_last(s.drop_last());
        let prefix = normalize_seq(s.drop_last());
        let r = normalize_seq(s);
        if is_sep(s.last()) {
            if s.len() >= 2 && is_sep(s[s.len() - 2]) {
            } else {
                assert(r == prefix.push('/'));
                assert(forall|i: int| 0 <= i < prefix.len() ==> r[i] == prefix[i]);
                if s.len() >= 2 {
                    assert(!is_sep(s.drop_last().last()));
                    assert(prefix.len() > 0 && prefix.last() != '/');
                }
            }
        } else {
            assert(r == prefix.push(s.last()));
            assert(forall|i: int| 0 <= i < prefix.len() ==> r[i] == prefix[i]);
        }
    }
}

/// Normalizes a path to use single forward slashes only.
pub fn normalize_slashes(path: &str) -> (r: String)
    ensures
        r@ == normalize_seq(path@),
{
    let cs = chars_of(path);
    let mut out: Vec<char> = Vec::new();
    let mut i: usize = 0;
    while i < cs.len()
        invariant
            i <= cs.len(),
            cs@ == path@,
            out@ == normalize_seq(path@.take(i as int)),
        decreases cs.len() - i,
    {
        let c = cs[i];
        proof {
            assert(path@.take(i + 1).drop_last() =~= path@.take(i as int));
            assert(path@.take(i + 1).last() == path@[i as int]);
        }
        if c == '/' || c == '\\' {
            if i == 0 || !(cs[i - 1] == '/' || cs[i - 1] == '\\') {
                out.push('/');
            } else {
                proof {
                    assert(path@.take(i + 1)[i - 1] == path@[i - 1]);
                }
            }
        } else {
            out.push(c);
        }
        i += 1;
    }
    proof {
        assert(path@.take(cs.len() as int) =~= path@);
    }
    string_of(&out)
}

/// A character allowed in a package scope: ASCII alphanumerics and
/// `- _ / . @`.
pub open spec fn scope_char_ok(c: char) -> bool {
    ('a' <= c && c <= 'z') || ('A' <= c && c <= 'Z') || ('0' <= c && c <= '9') || c == '-' || c
        == '_' || c == '/' || c == '.' || c == '@'
}

/// True when the `/`-separated component starting at `i` is exactly `..`.
pub open spec fn dotdot_component_at(s: Seq<char>, i: int) -> bool {
    &&& 0 <= i && i + 2 <= s.len()
    &&& s[i] == '.' && s[i + 1] == '.'
    &&& (i == 0 || s[i - 1] == '/')
    &&& (i + 2 == s.len() || s[i + 2] == '/')
}

/// True when some `/`-separated component of `s` is exactly `..`.
pub open spec fn has_dotdot_component(s: Seq<char>) -> bool {
    exists|i: int| dotdot_component_at(s, i)
}

/// A valid package scope: empty, or within the length bound with no `..`
/// component and only allowed characters.
pub open spec fn scope_valid(s: Seq<char>) -> bool {
    s.len() == 0 || (s.len() <= MAX_PACKAGE_SCOPE_LEN && !has_dotdot_component(s) && forall|i: int|
        0 <= i < s.len() ==> scope_char_ok(#[trigger] s[i]))
}

fn exec_scope_char_ok(c: char) -> (r: bool)
    ensures
        r == scope_char_ok(c),
{
    ('a' <= c && c <= 'z') || ('A' <= c && c <= 'Z') || ('0' <= c && c <= '9') || c == '-' || c
        == '_' || c == '/' || c == '.' || c == '@'
}

/// Validates a package scope string.
///
/// The empty scope is valid and means "no filter". A non-empty scope is
/// checked, in order, for length, `..` components, and disallowed
/// characters; the first failing check names the error.
pub fn validate_package_scope(scope: &str) -> (r: Result<(), PathError>)
    ensures
        r is Ok <==> scope_valid(scope@),
        r == Err::<(), PathError>(PathError::TooLong(MAX_PACKAGE_SCOPE_LEN as usize)) <==> scope@.len()
            > MAX_PACKAGE_SCOPE_LEN,
        r == Err::<(), PathError>(PathError::PathTraversal) <==> (scope@.len()
            <= MAX_PACKAGE_SCOPE_LEN && has_dotdot_component(scope@)),
        r == Err::<(), PathError>(PathError::InvalidChars) <==> (0 < scope@.len()
            <= MAX_PACKAGE_SCOPE_LEN && !has_dotdot_component(scope@) && exists|i: int|
            0 <= i < scope@.len() && !scope_char_ok(#[trigger] scope@[i])),
{
    let cs = chars_of(scope);
    if cs.len() == 0 {
        return Ok(());
    }
    if cs.len() > MAX_PACKAGE_SCOPE_LEN {
        return Err(PathError::TooLong(MAX_PACKAGE_SCOPE_LEN));
    }

    let mut i: usize = 0;
    while i < cs.len()
        invariant
            i <= cs.len(),
            cs@ == scope@,
            0 < cs.len() <= MAX_PACKAGE_SCOPE_LEN,
            forall|j: int| 0 <= j < i ==> !dotdot_component_at(scope@, j),
        decreases cs.len() - i,
    {
        if cs[i] == '.' && i + 1 < cs.len() && cs[i + 1] == '.' && (i == 0 || cs[i - 1] == '/')
            && (i + 2 == cs.len() || cs[i + 2] == '/') {
            assert(dotdot_component_at(scope@, i as int));
            return Err(PathError::PathTraversal);
        }
        proof {
            assert(!dotdot_component_at(scope@, i as int));
        }
        i += 1;
    }
    proof {
        assert(forall|j: int| dotdot_component_at(scope@, j) ==> 0 <= j < scope@.len());
        assert(!has_dotdot_component(scope@));
    }

    let mut k: usize = 0;
    while k < cs.len()
        invariant
            k <= cs.len(),
            cs@ == scope@,
            !has_dotdot_component(scope@),
            0 < scope@.len() <= MAX_PACKAGE_SCOPE_LEN,
            forall|j: int| 0 <= j < k ==> scope_char_ok(#[trigger] scope@[j]),
        decreases cs.len() - k,
    {
        if !exec_scope_char_ok(cs[k]) {
            return Err(PathError::InvalidChars);
        }
        k += 1;
    }
    Ok(())
}

} // verus!
