//! Dirty-file tracking and config-file change detection.
//!
//! The tracker holds the set of changed paths since the last drain, a
//! latched overflow flag guarding the set's size, a latched config-changed
//! flag, and the most recent content hash seen for each config file.

use vstd::prelude::*;

use crate::graph::row_view;
use crate::graph::vec_str_contains;
use crate::paths::file_name_of;
use crate::paths::has_prefix;
use crate::paths::name_is;
use crate::text::chars_of;
use crate::text::starts_with;
use vstd::seq_lib::lemma_seq_contains_after_push;

verus! {

/// Maximum dirty-set size before the overflow flag latches.
pub const MAX_DIRTY_FILES: usize = 500;

/// True when the path names a config file whose change forces a full run:
/// one of the package-manager manifests and lock files, `tsconfig.json`,
/// or any `vitest.config.*` file.
pub open spec fn is_config_file_spec(path: Seq<char>) -> bool {
    let name = file_name_of(path);
    ||| name == "package.json"@
    ||| name == "package-lock.json"@
    ||| name == "yarn.lock"@
    ||| name == "pnpm-lock.yaml"@
    ||| name == "bun.lockb"@
    ||| name == "bun.lock"@
    ||| name == "tsconfig.json"@
    ||| starts_with(name, "vitest.config."@)
}

/// Check if a path is a config file that should trigger a full run.
pub fn is_config_file(path: &str) -> (r: bool)
    ensures
        r == is_config_file_spec(path@),
{
    let cs = chars_of(path);
    let name = crate::paths::file_name_chars(&cs);
    name_is(&name, "package.json") || name_is(&name, "package-lock.json") || name_is(
        &name,
        "yarn.lock",
    ) || name_is(&name, "pnpm-lock.yaml") || name_is(&name, "bun.lockb") || name_is(
        &name,
        "bun.lock",
    ) || name_is(&name, "tsconfig.json") || has_prefix(&name, "vitest.config.")
}

/// Dirty file tracker with overflow protection.
pub struct DirtyTracker {
    workspace_root: String,
    dirty: Vec<String>,
    overflow: bool,
    config_changed: bool,
    hash_keys: Vec<String>,
    hash_vals: Vec<String>,
}

impl DirtyTracker {
    /// The set of dirty paths.
    pub closed spec fn dirty_set(self) -> Set<Seq<char>> {
        row_view(self.dirty@).to_set()
    }

    /// Whether the dirty set has overflowed since the last drain.
    pub closed spec fn overflow_flag(self) -> bool {
        self.overflow
    }

    /// Whether a config change has been recorded since the last drain.
    pub closed spec fn config_changed_flag(self) -> bool {
        self.config_changed
    }

    /// The most recent content hash recorded for a config path.
    pub closed spec fn hash_of(self, p: Seq<char>) -> Option<Seq<char>> {
        if row_view(self.hash_keys@).contains(p) {
            let i = choose|i: int|
                0 <= i < self.hash_keys@.len() && #[trigger] row_view(self.hash_keys@)[i] == p;
            Some(self.hash_vals@[i]@)
        } else {
            None
        }
    }

    /// The dirty set is finite.
    pub proof fn lemma_dirty_set_finite(self)
        ensures
            self.dirty_set().finite(),
    {
        vstd::seq_lib::seq_to_set_is_finite::<Seq<char>>(row_view(self.dirty@));
    }

    /// Well-formedness: the dirty list and the hash keys hold no
    /// duplicates, and the hash tables run in parallel.
    pub closed spec fn wf(self) -> bool {
        &&& row_view(self.dirty@).no_duplicates()
        &&& row_view(self.hash_keys@).no_duplicates()
        &&& self.hash_keys@.len() == self.hash_vals@.len()
    }

    /// Create a new dirty tracker for the workspace.
    pub fn new(workspace_root: String) -> (r: DirtyTracker)
        ensures
            r.wf(),
            r.dirty_set() == Set::<Seq<char>>::empty(),
            !r.overflow_flag(),
            !r.config_changed_flag(),
            forall|p: Seq<char>| r.hash_of(p) is None,
    {
        let t = DirtyTracker {
            workspace_root,
            dirty: Vec::new(),
            overflow: false,
            config_changed: false,
            hash_keys: Vec::new(),
            hash_vals: Vec::new(),
        };
        proof {
            assert(t.dirty_set() =~= Set::<Seq<char>>::empty());
            assert forall|p: Seq<char>| t.hash_of(p) is None by {
                if row_view(t.hash_keys@).contains(p) {
                    let i = choose|i: int|
                        0 <= i < t.hash_keys@.len() && #[trigger] row_view(t.hash_keys@)[i] == p;
                }
            };
        }
        t
    }

    /// Add a dirty file. When the set is already at its bound the overflow
    /// flag latches, the path is dropped, and `true` comes back.
    pub fn add_dirty(&mut self, path: String) -> (r: bool)
        requires
            old(self).wf(),
        ensures
            final(self).wf(),
            final(self).config_changed_flag() == old(self).config_changed_flag(),
            forall|p: Seq<char>| final(self).hash_of(p) == old(self).hash_of(p),
            old(self).dirty_set().len() >= MAX_DIRTY_FILES ==> {
                &&& r
                &&& final(self).overflow_flag()
                &&& final(self).dirty_set() == old(self).dirty_set()
            },
            old(self).dirty_set().len() < MAX_DIRTY_FILES ==> {
                &&& !r
                &&& final(self).overflow_flag() == old(self).overflow_flag()
                &&& final(self).dirty_set() == old(self).dirty_set().insert(path@)
            },
    {
        proof {
            row_view(self.dirty@).unique_seq_to_set();
        }
        if self.dirty.len() >= MAX_DIRTY_FILES {
            self.overflow = true;
            proof {
                lemma_hash_of_same(*old(self), *self);
            }
            return true;
        }
        let ghost d0 = row_view(self.dirty@);
        let already = vec_str_contains(&self.dirty, &path);
        if !already {
            self.dirty.push(path);
            proof {
                assert(row_view(self.dirty@) =~= d0.push(self.dirty@.last()@));
                crate::discovery::lemma_push_keeps_no_dup(d0, self.dirty@.last()@);
                vstd::prelude::Seq::lemma_push_to_set_commute(d0, self.dirty@.last()@);
            }
        } else {
            proof {
                assert(self.dirty_set() =~= d0.to_set().insert(path@));
            }
        }
        proof {
            lemma_hash_of_same(*old(self), *self);
        }
        false
    }

    /// Drain the dirty files and both flags, clearing all three. The
    /// recorded config hashes survive.
    pub fn drain(&mut self) -> (r: (Vec<String>, bool, bool))
        requires
            old(self).wf(),
        ensures
            final(self).wf(),
            row_view(r.0@).to_set() == old(self).dirty_set(),
            row_view(r.0@).no_duplicates(),
            r.1 == old(self).overflow_flag(),
            r.2 == old(self).config_changed_flag(),
            final(self).dirty_set() == Set::<Seq<char>>::empty(),
            !final(self).overflow_flag(),
            !final(self).config_changed_flag(),
            forall|p: Seq<char>| final(self).hash_of(p) == old(self).hash_of(p),
    {
        let mut files: Vec<String> = Vec::new();
        core::mem::swap(&mut files, &mut self.dirty);
        let was_overflow = self.overflow;
        let was_config_changed = self.config_changed;
        self.overflow = false;
        self.config_changed = false;
        proof {
            assert(self.dirty_set() =~= Set::<Seq<char>>::empty());
            lemma_hash_of_same(*old(self), *self);
        }
        (files, was_overflow, was_config_changed)
    }

    /// Latch the config-changed flag.
    pub fn set_config_changed(&mut self)
        requires
            old(self).wf(),
        ensures
            final(self).wf(),
            final(self).config_changed_flag(),
            final(self).overflow_flag() == old(self).overflow_flag(),
            final(self).dirty_set() == old(self).dirty_set(),
            forall|p: Seq<char>| final(self).hash_of(p) == old(self).hash_of(p),
    {
        self.config_changed = true;
        proof {
            lemma_hash_of_same(*old(self), *self);
        }
    }

    /// Record the observed content hash of a config file and report
    /// whether it changed: true exactly when a hash was already on record
    /// for the path and differs from the new one. The first observation of
    /// a path is not a change.
    pub fn check_config_change(&mut self, path: &String, content_hash: &String) -> (r: bool)
        requires
            old(self).wf(),
        ensures
            final(self).wf(),
            r == (old(self).hash_of(path@) is Some && old(self).hash_of(path@) != Some(
                content_hash@,
            )),
            final(self).hash_of(path@) == Some(content_hash@),
            forall|p: Seq<char>| p != path@ ==> final(self).hash_of(p) == old(self).hash_of(p),
            final(self).dirty_set() == old(self).dirty_set(),
            final(self).overflow_flag() == old(self).overflow_flag(),
            final(self).config_changed_flag() == old(self).config_changed_flag(),
    {
        let ghost g0 = *self;
        let mut i: usize = 0;
        while i < self.hash_keys.len()
            invariant
                *self == g0,
                g0 == *old(self),
                self.wf(),
                i <= self.hash_keys@.len(),
                forall|j: int| 0 <= j < i ==> row_view(self.hash_keys@)[j] != path@,
            decreases self.hash_keys@.len() - i,
        {
            let found = self.hash_keys[i].eq(path);
            if found {
                proof {
                    assert(row_view(self.hash_keys@)[i as int] == path@);
                    assert(row_view(self.hash_keys@).contains(path@));
                    lemma_hash_at(g0, path@, i as int);
                }
                let changed = !self.hash_vals[i].eq(content_hash);
                self.hash_vals.set(i, content_hash.clone());
                proof {
                    assert(row_view(self.hash_keys@).contains(path@));
                    lemma_hash_at(*self, path@, i as int);
                    assert forall|p: Seq<char>| p != path@ implies self.hash_of(p) == g0.hash_of(
                        p,
                    ) by {
                        lemma_hash_other(g0, *self, p, i as int);
                    };
                    assert(self.dirty_set() =~= g0.dirty_set());
                }
                return changed;
            }
            i += 1;
        }
        proof {
            assert(!row_view(self.hash_keys@).contains(path@));
            assert(g0.hash_of(path@) is None);
        }
        let ghost k0 = row_view(self.hash_keys@);
        self.hash_keys.push(path.clone());
        self.hash_vals.push(content_hash.clone());
        proof {
            assert(row_view(self.hash_keys@) =~= k0.push(path@));
            crate::discovery::lemma_push_keeps_no_dup(k0, path@);
            assert(row_view(self.hash_keys@)[k0.len() as int] == path@);
            assert(row_view(self.hash_keys@).contains(path@));
            lemma_hash_at(*self, path@, k0.len() as int);
            assert forall|p: Seq<char>| p != path@ implies self.hash_of(p) == g0.hash_of(p) by {
                lemma_seq_contains_after_push(k0, path@, p);
                if k0.contains(p) {
                    let j = choose|j: int| 0 <= j < k0.len() && #[trigger] k0[j] == p;
                    assert(row_view(self.hash_keys@)[j] == p);
                    assert(row_view(self.hash_keys@).contains(p));
                    lemma_hash_at(g0, p, j);
                    lemma_hash_at(*self, p, j);
                } else {
                    assert(!row_view(self.hash_keys@).contains(p)) by {
                        if row_view(self.hash_keys@).contains(p) {
                            let j = choose|j: int|
                                0 <= j < row_view(self.hash_keys@).len() && #[trigger] row_view(
                                    self.hash_keys@,
                                )[j] == p;
                            assert(j < k0.len() ==> k0[j] == p);
                        }
                    }
                }
            };
            assert(self.dirty_set() =~= g0.dirty_set());
        }
        false
    }
}

/// When slot `i` holds the key, the lookup answers with that slot's value.
proof fn lemma_hash_at(t: DirtyTracker, p: Seq<char>, i: int)
    requires
        t.wf(),
        0 <= i < t.hash_keys_seq().len(),
        row_view(t.hash_keys_seq())[i] == p,
        row_view(t.hash_keys_seq()).contains(p),
    ensures
        t.hash_of(p) == Some(t.hash_vals_seq()[i]@),
{
    let w = choose|w: int|
        0 <= w < t.hash_keys_seq().len() && #[trigger] row_view(t.hash_keys_seq())[w] == p;
    assert(w == i);
}

proof fn lemma_hash_other(t1: DirtyTracker, t2: DirtyTracker, p: Seq<char>, i: int)
    requires
        t1.wf(),
        t2.wf(),
        t1.hash_keys_seq() == t2.hash_keys_seq(),
        t1.hash_vals_seq().len() == t2.hash_vals_seq().len(),
        0 <= i < t1.hash_keys_seq().len(),
        row_view(t1.hash_keys_seq())[i] != p,
        forall|j: int|
            0 <= j < t1.hash_vals_seq().len() && j != i ==> t1.hash_vals_seq()[j]
                == t2.hash_vals_seq()[j],
    ensures
        t1.hash_of(p) == t2.hash_of(p),
{
    if row_view(t1.hash_keys_seq()).contains(p) {
        let w = choose|w: int|
            0 <= w < t1.hash_keys_seq().len() && #[trigger] row_view(t1.hash_keys_seq())[w] == p;
        assert(w != i);
        lemma_hash_at(t1, p, w);
        lemma_hash_at(t2, p, w);
    }
}

/// Identical hash tables answer every lookup alike.
proof fn lemma_hash_of_same(t1: DirtyTracker, t2: DirtyTracker)
    requires
        t1.hash_keys_seq() == t2.hash_keys_seq(),
        t1.hash_vals_seq() == t2.hash_vals_seq(),
    ensures
        forall|p: Seq<char>| t1.hash_of(p) == t2.hash_of(p),
{
}

impl DirtyTracker {
    /// The hash-table keys, for stating lemmas.
    pub closed spec fn hash_keys_seq(self) -> Seq<String> {
        self.hash_keys@
    }

    /// The hash-table values, for stating lemmas.
    pub closed spec fn hash_vals_seq(self) -> Seq<String> {
        self.hash_vals@
    }
}

} // verus!
