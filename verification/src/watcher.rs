//! Watcher-side path filtering.
//!
//! The file watcher reports raw paths; before they reach the dirty set,
//! paths under `node_modules` are always dropped, and paths matched by
//! the workspace's `.gitignore`, when one is configured, are dropped too.

use vstd::prelude::*;

use crate::discovery::has_component;

verus! {

/// The `ignore` crate's compiled gitignore matcher, used opaquely.
#[verifier::external_type_specification]
#[verifier::external_body]
pub struct ExGitignore(ignore::gitignore::Gitignore);

/// Relies on `ignore::gitignore::GitignoreBuilder`: compiles the given
/// ignore rules, one per line, rooted at the workspace.
#[verifier::external_body]
fn build_gitignore(root: &str, content: &str) -> (r: Option<ignore::gitignore::Gitignore>) {
    let mut builder = ignore::gitignore::GitignoreBuilder::new(root);
    for line in content.lines() {
        let _ = builder.add_line(None, line);
    }
    builder.build().ok()
}

/// Relies on `ignore::gitignore::Gitignore::matched`: whether the rules
/// ignore the given path. The result is a function of the compiled rules
/// and the arguments.
#[verifier::external_body]
fn gitignore_matched(gi: &ignore::gitignore::Gitignore, path: &str, is_dir: bool) -> (r: bool) {
    gi.matched(std::path::Path::new(path), is_dir).is_ignore()
}

/// Configuration for filtering watcher events.
pub struct WatcherConfig {
    /// The workspace root the rules are anchored at.
    pub workspace_root: String,
    gitignore: Option<ignore::gitignore::Gitignore>,
}

impl WatcherConfig {
    /// Whether a gitignore matcher is configured.
    pub closed spec fn has_gitignore(self) -> bool {
        self.gitignore is Some
    }

    /// Create a watcher config; the gitignore rules, when given, are the
    /// text of the workspace's `.gitignore`.
    pub fn new(workspace_root: String, gitignore_content: Option<String>) -> (r: WatcherConfig) {
        let gitignore = match gitignore_content {
            Option::Some(content) => build_gitignore(workspace_root.as_str(), content.as_str()),
            Option::None => None,
        };
        WatcherConfig { workspace_root, gitignore }
    }

    /// Check if a path should be ignored: every path with a
    /// `node_modules` component is; otherwise the gitignore rules decide,
    /// and without rules nothing else is ignored.
    pub fn should_ignore(&self, path: &String, is_dir: bool) -> (r: bool)
        ensures
            has_component(path@, "node_modules"@) ==> r,
            !has_component(path@, "node_modules"@) && !self.has_gitignore() ==> !r,
    {
        let cs = crate::text::chars_of(path.as_str());
        proof {
            reveal_strlit("node_modules");
        }
        if crate::discovery::find_component(&cs, "node_modules") {
            return true;
        }
        match &self.gitignore {
            Option::Some(gi) => {
                let rel = match crate::paths::path_to_relative(path, &self.workspace_root) {
                    Option::Some(rel) => rel,
                    Option::None => path.clone(),
                };
                gitignore_matched(gi, rel.as_str(), is_dir)
            },
            Option::None => false,
        }
    }
}

} // verus!
