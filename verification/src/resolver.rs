//! Import path resolution.
//!
//! Resolves an import specifier relative to the importing file into a
//! canonical absolute path, honoring the configured extensions, index
//! files, condition names and the workspace's tsconfig path mapping. The
//! workspace sandbox is verified here: a resolution outside the canonical
//! workspace root is rejected.

use vstd::prelude::*;

use crate::paths::is_descendant;
use vstd::string::StringExecFns;

verus! {

/// Path resolver for TypeScript/JavaScript imports.
pub struct PathResolver {
    workspace_root: String,
    workspace_canon: Option<String>,
    tsconfig_path: String,
}

/// The resolver options type, used opaquely.
#[verifier::external_type_specification]
#[verifier::external_body]
pub struct ExResolveOptions(oxc_resolver::ResolveOptions);

/// Relies on `oxc_resolver::ResolveOptions`: the module extensions,
/// `index` main files, the `import`/`require`/`node`/`default` condition
/// names and the given manual tsconfig, references disabled.
#[verifier::external_body]
fn oxc_options(tsconfig_path: &str) -> (r: oxc_resolver::ResolveOptions) {
    oxc_resolver::ResolveOptions {
        extensions: vec![".ts".into(), ".tsx".into(), ".js".into(), ".jsx".into(), ".mts".into(), ".mjs".into(), ".cts".into(), ".cjs".into()],
        main_files: vec!["index".into()],
        condition_names: vec!["import".into(), "require".into(), "node".into(), "default".into()],
        tsconfig: Some(oxc_resolver::TsconfigDiscovery::Manual(oxc_resolver::TsconfigOptions {
            config_file: tsconfig_path.into(),
            references: oxc_resolver::TsconfigReferences::Disabled,
        })),
        ..Default::default()
    }
}

/// Relies on `oxc_resolver::Resolver::resolve` with the options above:
/// the resolved path, when resolution succeeds. The result depends on the
/// filesystem.
#[verifier::external_body]
fn oxc_resolve_raw(from_dir: &str, specifier: &str, tsconfig_path: &str) -> (r: Option<String>) {
    let resolver = oxc_resolver::Resolver::new(oxc_options(tsconfig_path));
    let resolution = resolver.resolve(std::path::Path::new(from_dir), specifier).ok()?;
    resolution.into_path_buf().to_str().map(|s| s.to_string())
}

impl PathResolver {
    /// The canonical workspace root recorded at construction, when the
    /// root could be canonicalized.
    pub closed spec fn canon_root(self) -> Option<Seq<char>> {
        match self.workspace_canon {
            Option::Some(c) => Option::Some(c@),
            Option::None => Option::<Seq<char>>::None,
        }
    }

    /// Create a resolver for the workspace, with the workspace's
    /// `tsconfig.json` as the path-mapping file.
    pub fn new(workspace_root: String) -> (r: PathResolver) {
        let mut tsconfig_path = workspace_root.clone();
        tsconfig_path.append("/tsconfig.json");
        PathResolver::with_tsconfig(workspace_root, tsconfig_path)
    }

    /// Create a resolver with a custom tsconfig path.
    pub fn with_tsconfig(workspace_root: String, tsconfig_path: String) -> (r: PathResolver) {
        let workspace_canon = crate::fsys::canonicalize_path(workspace_root.as_str());
        PathResolver { workspace_root, workspace_canon, tsconfig_path }
    }

    /// Resolve an import specifier to a canonical absolute path. The
    /// result, when there is one, always lies under the canonical
    /// workspace root: any resolution outside that sandbox is rejected,
    /// as is every resolution when the root itself has no canonical form.
    pub fn resolve(&self, from: &String, specifier: &String) -> (r: Option<String>)
        ensures
            match r {
                Some(p) => self.canon_root() matches Some(root) && is_descendant(p@, root),
                None => true,
            },
    {
        let root = match &self.workspace_canon {
            Option::Some(c) => c,
            Option::None => {
                return None;
            },
        };
        let fc = crate::text::chars_of(from.as_str());
        let from_dir = crate::discovery::dir_chars(&fc);
        let from_dir_s = crate::text::string_of(&from_dir);
        let resolved = match oxc_resolve_raw(
            from_dir_s.as_str(),
            specifier.as_str(),
            self.tsconfig_path.as_str(),
        ) {
            Option::Some(p) => p,
            Option::None => {
                return None;
            },
        };
        let canonical = match crate::fsys::canonicalize_path(resolved.as_str()) {
            Option::Some(c) => c,
            Option::None => {
                return None;
            },
        };
        let cc = crate::text::chars_of(canonical.as_str());
        let rc = crate::text::chars_of(root.as_str());
        if crate::text::vec_chars_eq(&cc, &rc) {
            return Some(canonical);
        }
        let mut pref = rc;
        pref.push('/');
        proof {
            assert(pref@ == root@.push('/'));
        }
        if crate::text::vec_starts_with(&cc, &pref) {
            Some(canonical)
        } else {
            None
        }
    }
}

} // verus!
