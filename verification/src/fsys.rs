//! Filesystem-dependent helpers.
//!
//! These calls depend on what is on disk, so their results carry no
//! specification; callers state what holds of every outcome.

use vstd::prelude::*;

verus! {

/// Relies on `std::path::Path::canonicalize`: yields an absolute path
/// with symlinks resolved when the path exists and is representable,
/// nothing otherwise. The result depends on the filesystem.
#[verifier::external_body]
pub fn canonicalize_path(p: &str) -> (r: Option<String>) {
    match std::path::Path::new(p).canonicalize() {
        Ok(c) => c.to_str().map(|s| s.to_string()),
        Err(_) => None,
    }
}

/// Relies on `std::time::SystemTime::now` and `duration_since`: the
/// nanoseconds since the Unix epoch, truncated to 64 bits; zero when the
/// clock reads before the epoch. The result depends on the clock.
#[verifier::external_body]
pub fn now_unix_nanos() -> (r: u64) {
    match std::time::SystemTime::now().duration_since(std::time::UNIX_EPOCH) {
        Ok(d) => d.as_nanos() as u64,
        Err(_) => 0,
    }
}

} // verus!
