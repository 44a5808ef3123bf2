//! TypeScript/JavaScript import extraction.
//!
//! A syntax-tree grammar captures every `import ... from 'X'`,
//! `export ... from 'X'` and `require('X')` occurrence; the captures'
//! classification into import kinds, the quote stripping and the bound on
//! the number of imports are verified here.

use vstd::prelude::*;

use crate::text::chars_of;
use crate::text::string_of;
use tree_sitter::StreamingIterator;

verus! {

/// Maximum number of imports extracted per file.
pub const MAX_IMPORTS_PER_FILE: usize = 500;

/// Kind of import statement.
#[derive(Debug, Clone, Copy, PartialEq, Eq, Structural)]
pub enum ImportKind {
    /// `import { x } from './path'`
    Named,
    /// `import x from './path'`
    Default,
    /// `import * as x from './path'`
    Namespace,
    /// `export { x } from './path'`
    ReExportNamed,
    /// `export * from './path'`
    ReExportAll,
    /// `require('./path')`
    Require,
    /// `import type { x } from './path'`
    TypeOnly,
}

/// A parsed import statement.
#[derive(Debug, Clone, PartialEq, Eq)]
pub struct ImportStatement {
    /// The import specifier, quotes stripped.
    pub specifier: String,
    /// The kind of import.
    pub kind: ImportKind,
}

/// The fields of an import statement.
pub open spec fn imp_view(s: ImportStatement) -> (Seq<char>, ImportKind) {
    (s.specifier@, s.kind)
}

/// The views of an import list.
pub open spec fn imp_views(v: Seq<ImportStatement>) -> Seq<(Seq<char>, ImportKind)> {
    v.map_values(|s: ImportStatement| imp_view(s))
}

/// What the syntax-tree query captures on the given source: for each
/// captured import source, the literal's text, the parent node's kind and
/// the parent node's text, in source order; nothing when the source does
/// not parse cleanly. Names the result of the tree-sitter parse and
/// query below.
pub uninterp spec fn ts_captures(content: Seq<char>, tsx: bool) -> Option<
    Seq<(Seq<char>, Seq<char>, Seq<char>)>,
>;

/// The triple views of a capture list.
pub open spec fn cap_views(v: Seq<(String, String, String)>) -> Seq<
    (Seq<char>, Seq<char>, Seq<char>),
> {
    v.map_values(|c: (String, String, String)| (c.0@, c.1@, c.2@))
}

/// The tree-sitter `Language` handle, used opaquely.
#[verifier::external_type_specification]
#[verifier::external_body]
pub struct ExLanguage(tree_sitter::Language);

/// The tree-sitter `Tree`, used opaquely.
#[verifier::external_type_specification]
#[verifier::external_body]
pub struct ExTree(tree_sitter::Tree);

/// Relies on `tree_sitter_typescript`: the TSX grammar for `.tsx`
/// sources, the TypeScript grammar otherwise.
#[verifier::external_body]
fn ts_language(tsx: bool) -> (r: tree_sitter::Language) {
    if tsx {
        tree_sitter_typescript::LANGUAGE_TSX.into()
    } else {
        tree_sitter_typescript::LANGUAGE_TYPESCRIPT.into()
    }
}

/// Relies on `tree_sitter::Parser::parse`: the syntax tree of the
/// source, or nothing when the language fails to load, parsing fails, or
/// the tree holds syntax errors.
#[verifier::external_body]
fn ts_parse_tree(content: &str, lang: &tree_sitter::Language) -> (r: Option<tree_sitter::Tree>) {
    let mut parser = tree_sitter::Parser::new();
    parser.set_language(lang).ok()?;
    let tree = parser.parse(content, None)?;
    if tree.root_node().has_error() {
        None
    } else {
        Some(tree)
    }
}

/// Relies on `tree_sitter::Query` over import, export and `require`
/// sources, and on `Node::utf8_text`, `Node::parent` and `Node::kind`:
/// hands out each captured source literal with its parent's kind and
/// text, in source order.
#[verifier::external_body]
fn ts_query_sources(tree: &tree_sitter::Tree, content: &str, lang: &tree_sitter::Language) -> (r:
    Option<Vec<(String, String, String)>>) {
    let query = tree_sitter::Query::new(
        lang,
        "(import_statement source: (string) @source) (export_statement source: (string) @source) (call_expression function: (identifier) @func (#eq? @func \"require\") arguments: (arguments (string) @source))",
    ).ok()?;
    let source_index = query.capture_index_for_name("source")?;
    let mut cursor = tree_sitter::QueryCursor::new();
    let mut matches = cursor.matches(&query, tree.root_node(), content.as_bytes());
    let mut out = Vec::new();
    while let Some(m) = matches.next() {
        for cap in m.captures().iter().filter(|c| c.index == source_index) {
            out.push(capture_triple(&cap.node, content));
        }
    }
    Some(out)
}

/// The tree-sitter `Node`, used opaquely.
#[verifier::external_type_specification]
#[verifier::external_body]
pub struct ExNode<'a>(tree_sitter::Node<'a>);

/// Relies on `Node::utf8_text`, `Node::parent` and `Node::kind`: the
/// capture's text together with its parent's kind and text.
#[verifier::external_body]
fn capture_triple(node: &tree_sitter::Node<'_>, content: &str) -> (r: (String, String, String)) {
    let text = node.utf8_text(content.as_bytes()).unwrap_or("").to_string();
    match node.parent() {
        Some(p) => (
            text,
            p.kind().to_string(),
            p.utf8_text(content.as_bytes()).unwrap_or("").to_string(),
        ),
        None => (text, String::new(), String::new()),
    }
}

/// Relies on the tree-sitter parse and query pipeline above: hands out
/// the captured import sources of this text, a function of the source
/// text and the grammar choice alone; nothing when the source does not
/// parse cleanly.
#[verifier::external_body]
fn ts_import_captures(content: &str, tsx: bool) -> (r: Option<Vec<(String, String, String)>>)
    ensures
        match r {
            Some(v) => ts_captures(content@, tsx) == Some(cap_views(v@)),
            None => ts_captures(content@, tsx) is None,
        },
{
    let lang = ts_language(tsx);
    let tree = ts_parse_tree(content, &lang)?;
    ts_query_sources(&tree, content, &lang)
}

/// A quote character delimiting a string literal.
pub open spec fn is_quote(c: char) -> bool {
    c == '"' || c == '\'' || c == '`'
}

/// The literal's text with leading and trailing quote characters
/// stripped.
pub open spec fn strip_quotes(s: Seq<char>) -> Seq<char>
    decreases s.len(),
{
    if s.len() > 0 && is_quote(s.first()) {
        strip_quotes(s.drop_first())
    } else if s.len() > 0 && is_quote(s.last()) {
        strip_quotes(s.drop_last())
    } else {
        s
    }
}

fn strip_quotes_exec(s: &Vec<char>) -> (r: Vec<char>)
    ensures
        r@ == strip_quotes(s@),
{
    let mut lo: usize = 0;
    let mut hi: usize = s.len();
    proof {
        assert(s@.subrange(0, s@.len() as int) =~= s@);
    }
    loop
        invariant_except_break
            0 <= lo <= hi <= s@.len(),
            strip_quotes(s@) == strip_quotes(s@.subrange(lo as int, hi as int)),
        ensures
            0 <= lo <= hi <= s@.len(),
            strip_quotes(s@) == strip_quotes(s@.subrange(lo as int, hi as int)),
            hi == lo || (!is_quote(s@[lo as int]) && !is_quote(s@[hi as int - 1])),
        decreases hi - lo,
    {
        proof {
            let cur = s@.subrange(lo as int, hi as int);
            if cur.len() > 0 && is_quote(cur.first()) {
                assert(cur.drop_first() =~= s@.subrange(lo as int + 1, hi as int));
            } else if cur.len() > 0 && is_quote(cur.last()) {
                assert(cur.drop_last() =~= s@.subrange(lo as int, hi as int - 1));
            }
        }
        if lo < hi && (s[lo] == '"' || s[lo] == '\'' || s[lo] == '`') {
            lo = lo + 1;
        } else if lo < hi && (s[hi - 1] == '"' || s[hi - 1] == '\'' || s[hi - 1] == '`') {
            hi = hi - 1;
        } else {
            break;
        }
    }
    let mut out: Vec<char> = Vec::new();
    let mut i: usize = lo;
    while i < hi
        invariant
            lo <= i <= hi <= s@.len(),
            out@ == s@.subrange(lo as int, i as int),
        decreases hi - i,
    {
        out.push(s[i]);
        i += 1;
    }
    proof {
        let cur = s@.subrange(lo as int, hi as int);
        assert(cur.len() == 0 || (!is_quote(cur.first()) && !is_quote(cur.last())));
        assert(strip_quotes(cur) == cur);
        assert(out@ =~= cur);
    }
    out
}

/// An occurrence of `sub` at position `i` of `s`.
pub open spec fn substr_match(s: Seq<char>, i: int, sub: Seq<char>) -> bool {
    0 <= i && i + sub.len() <= s.len() && s.subrange(i, i + sub.len() as int) == sub
}

/// Substring search.
pub open spec fn has_substr(s: Seq<char>, sub: Seq<char>) -> bool {
    exists|i: int| substr_match(s, i, sub)
}

fn substr_at(s: &Vec<char>, i: usize, sub: &Vec<char>) -> (r: bool)
    requires
        i <= s@.len(),
    ensures
        r == substr_match(s@, i as int, sub@),
{
    if sub.len() > s.len() - i {
        return false;
    }
    let n = s.len();
    let mut k: usize = 0;
    while k < sub.len()
        invariant
            k <= sub@.len(),
            n == s@.len(),
            i + sub@.len() <= s@.len(),
            forall|j: int| 0 <= j < k ==> s@[i + j] == sub@[j],
        decreases sub@.len() - k,
    {
        if s[i + k] != sub[k] {
            proof {
                assert(s@.subrange(i as int, i + sub@.len() as int)[k as int] != sub@[k as int]);
            }
            return false;
        }
        k += 1;
    }
    proof {
        assert(s@.subrange(i as int, i + sub@.len() as int) =~= sub@);
    }
    true
}

fn contains_lit(s: &Vec<char>, lit: &str) -> (r: bool)
    ensures
        r == has_substr(s@, lit@),
{
    let sub = chars_of(lit);
    let mut i: usize = 0;
    loop
        invariant_except_break
            i <= s@.len(),
            sub@ == lit@,
            forall|j: int| 0 <= j < i ==> !substr_match(s@, j, lit@),
        ensures
            !has_substr(s@, lit@),
        decreases s@.len() - i,
    {
        if substr_at(s, i, &sub) {
            return true;
        }
        if i == s.len() {
            proof {
                assert(forall|j: int| #[trigger] substr_match(s@, j, lit@) ==> 0 <= j <= s@.len());
            }
            break;
        }
        i += 1;
    }
    false
}

/// Classification of one captured occurrence by its parent node: imports
/// distinguish type-only, namespace, named and default forms by their
/// text; exports distinguish re-export-all from named re-exports;
/// `require` arguments are require imports.
pub open spec fn classify(parent_kind: Seq<char>, parent_text: Seq<char>) -> ImportKind {
    if parent_kind == "import_statement"@ {
        if has_substr(parent_text, "import type"@) {
            ImportKind::TypeOnly
        } else if has_substr(parent_text, "* as"@) {
            ImportKind::Namespace
        } else if has_substr(parent_text, "{"@) {
            ImportKind::Named
        } else {
            ImportKind::Default
        }
    } else if parent_kind == "export_statement"@ {
        if has_substr(parent_text, "export *"@) && !has_substr(parent_text, "as"@) {
            ImportKind::ReExportAll
        } else {
            ImportKind::ReExportNamed
        }
    } else if parent_kind == "arguments"@ {
        ImportKind::Require
    } else {
        ImportKind::Named
    }
}

fn classify_exec(parent_kind: &String, parent_text: &String) -> (r: ImportKind)
    ensures
        r == classify(parent_kind@, parent_text@),
{
    let pk = chars_of(parent_kind.as_str());
    let pt = chars_of(parent_text.as_str());
    if crate::paths::name_is(&pk, "import_statement") {
        if contains_lit(&pt, "import type") {
            ImportKind::TypeOnly
        } else if contains_lit(&pt, "* as") {
            ImportKind::Namespace
        } else if contains_lit(&pt, "{") {
            ImportKind::Named
        } else {
            ImportKind::Default
        }
    } else if crate::paths::name_is(&pk, "export_statement") {
        if contains_lit(&pt, "export *") && !contains_lit(&pt, "as") {
            ImportKind::ReExportAll
        } else {
            ImportKind::ReExportNamed
        }
    } else if crate::paths::name_is(&pk, "arguments") {
        ImportKind::Require
    } else {
        ImportKind::Named
    }
}

/// The import statements of a capture list: each occurrence's specifier
/// with the quotes stripped and its classified kind, skipping empty
/// specifiers.
pub open spec fn classified(caps: Seq<(Seq<char>, Seq<char>, Seq<char>)>) -> Seq<
    (Seq<char>, ImportKind),
>
    decreases caps.len(),
{
    if caps.len() == 0 {
        Seq::<(Seq<char>, ImportKind)>::empty()
    } else {
        let rest = classified(caps.drop_last());
        let c = caps.last();
        let spec_text = strip_quotes(c.0);
        if spec_text.len() == 0 {
            rest
        } else {
            rest.push((spec_text, classify(c.1, c.2)))
        }
    }
}

/// What import extraction yields on a source text: the classified
/// captures, cut to the import bound; an unparsable source yields
/// nothing.
pub open spec fn imports_of(content: Seq<char>, tsx: bool) -> Seq<(Seq<char>, ImportKind)> {
    match ts_captures(content, tsx) {
        Option::None => Seq::<(Seq<char>, ImportKind)>::empty(),
        Option::Some(caps) => {
            let all = classified(caps);
            if all.len() > MAX_IMPORTS_PER_FILE {
                all.take(MAX_IMPORTS_PER_FILE as int)
            } else {
                all
            }
        },
    }
}

/// Parse imports from source text; the language is the TSX grammar for
/// `.tsx` files and the TypeScript grammar otherwise. A source with
/// syntax errors yields no imports; at most the import bound survives.
pub fn parse_imports_from_str(content: &str, path: &str) -> (r: Vec<ImportStatement>)
    ensures
        imp_views(r@) == imports_of(
            content@,
            crate::text::ends_with(path@, ".tsx"@),
        ),
{
    let pc = chars_of(path);
    let tsx = crate::paths::has_suffix(&pc, ".tsx");
    let caps = match ts_import_captures(content, tsx) {
        Option::Some(v) => v,
        Option::None => {
            let r: Vec<ImportStatement> = Vec::new();
            proof {
                assert(imp_views(r@) =~= imports_of(content@, tsx));
            }
            return r;
        },
    };
    let mut out: Vec<ImportStatement> = Vec::new();
    let ghost cv = cap_views(caps@);
    let mut i: usize = 0;
    while i < caps.len()
        invariant
            i <= caps@.len(),
            cv == cap_views(caps@),
            ts_captures(content@, tsx) == Some(cv),
            imp_views(out@) == classified(cv.take(i as int)),
        decreases caps@.len() - i,
    {
        proof {
            assert(cv.take(i as int + 1).drop_last() =~= cv.take(i as int));
            assert(cv.take(i as int + 1).last() == cv[i as int]);
            assert(cv[i as int] == (caps@[i as int].0@, caps@[i as int].1@, caps@[i as int].2@));
        }
        let text = chars_of(caps[i].0.as_str());
        let stripped = strip_quotes_exec(&text);
        if stripped.len() > 0 {
            let kind = classify_exec(&caps[i].1, &caps[i].2);
            let specifier = string_of(&stripped);
            let ghost before = imp_views(out@);
            out.push(ImportStatement { specifier, kind });
            proof {
                assert(imp_views(out@) =~= before.push(imp_view(out@.last())));
            }
        }
        i += 1;
    }
    proof {
        assert(cv.take(cv.len() as int) =~= cv);
    }
    if out.len() > MAX_IMPORTS_PER_FILE {
        out.truncate(MAX_IMPORTS_PER_FILE);
        proof {
            assert(imp_views(out@) =~= classified(cv).take(MAX_IMPORTS_PER_FILE as int));
        }
    }
    out
}

} // verus!
