//! Stable identifiers for test failures and findings.
//!
//! A stable ID is the first 32 characters of the lowercase hexadecimal
//! BLAKE3 hash of a `:`-joined key, so the same identifying fields always
//! map to the same ID across runs.

use vstd::prelude::*;

use vstd::string::StrSliceExecFns;
use vstd::string::StringExecFns;

verus! {

/// The lowercase hexadecimal BLAKE3 hash of a string's bytes; 64
/// characters. Names the result of `blake3::hash` followed by
/// `Hash::to_hex` on the string's UTF-8 bytes.
pub uninterp spec fn blake3_hex_of_str(s: Seq<char>) -> Seq<char>;

/// The lowercase hexadecimal BLAKE3 hash of a byte sequence; 64
/// characters. Names the result of `blake3::hash` followed by
/// `Hash::to_hex`.
pub uninterp spec fn blake3_hex_of_bytes(b: Seq<u8>) -> Seq<char>;

/// A lowercase hexadecimal digit.
pub open spec fn is_lower_hex(c: char) -> bool {
    ('0' <= c && c <= '9') || ('a' <= c && c <= 'f')
}

/// Relies on `blake3::hash` and `blake3::Hash::to_hex`: the result is a
/// function of the input bytes alone and is exactly 64 lowercase
/// hexadecimal digits.
#[verifier::external_body]
pub(crate) fn blake3_hex_str(s: &str) -> (r: String)
    ensures
        r@ == blake3_hex_of_str(s@),
        r@.len() == 64,
        forall|i: int| 0 <= i < r@.len() ==> is_lower_hex(#[trigger] r@[i]),
{
    blake3::hash(s.as_bytes()).to_hex().as_str().to_string()
}

/// Relies on `blake3::hash` and `blake3::Hash::to_hex`: the result is a
/// function of the input bytes alone and is exactly 64 lowercase
/// hexadecimal digits.
#[verifier::external_body]
pub fn hash_bytes_hex(b: &Vec<u8>) -> (r: String)
    ensures
        r@ == blake3_hex_of_bytes(b@),
        r@.len() == 64,
        forall|i: int| 0 <= i < r@.len() ==> is_lower_hex(#[trigger] r@[i]),
{
    blake3::hash(b.as_slice()).to_hex().as_str().to_string()
}

/// The `:`-joined key hashed for a test-failure stable ID: the bare pair
/// `<file>:<test_id>`. Test-failure keys deliberately carry no leading
/// domain tag; the only domain-tagged keys are finding IDs, which open
/// with their tool's `eslint:` tag. A reading of the failure key as
/// domain-tagged is not intended.
pub open spec fn stable_id_input(file: Seq<char>, test_id: Seq<char>) -> Seq<char> {
    file + seq![':'] + test_id
}

/// The stable ID for a `(file, test_id)` pair: the first 32 hex digits of
/// the BLAKE3 hash of `<file>:<test_id>`.
pub open spec fn stable_id_of(file: Seq<char>, test_id: Seq<char>) -> Seq<char> {
    blake3_hex_of_str(stable_id_input(file, test_id)).take(32)
}

/// Computes the stable ID for a test failure: 32 lowercase hex characters,
/// a fixed function of `file` and `test_id`.
pub fn compute(file: &str, test_id: &str) -> (r: String)
    ensures
        r@ == stable_id_of(file@, test_id@),
        r@.len() == 32,
        forall|i: int| 0 <= i < r@.len() ==> is_lower_hex(#[trigger] r@[i]),
{
    let mut input = file.to_owned();
    input.append(":");
    input.append(test_id);
    proof {
        reveal_strlit(":");
        assert(input@ =~= stable_id_input(file@, test_id@));
    }
    let hex = blake3_hex_str(input.as_str());
    let r = hex.as_str().substring_char(0, 32).to_owned();
    proof {
        assert(r@ =~= stable_id_of(file@, test_id@));
    }
    r
}

/// Determinism of stable IDs: the ID is a fixed function of its named
/// inputs; equal inputs give the equal 32-character ID.
pub proof fn lemma_stable_id_deterministic(
    f1: Seq<char>,
    t1: Seq<char>,
    f2: Seq<char>,
    t2: Seq<char>,
)
    requires
        f1 == f2,
        t1 == t2,
    ensures
        stable_id_of(f1, t1) == stable_id_of(f2, t2),
{
}

} // verus!
