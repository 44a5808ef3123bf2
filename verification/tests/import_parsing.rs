use zax_workspace_service::parse_imports_from_str;
use zax_workspace_service::ImportKind;
use zax_workspace_service::ImportStatement;

fn parse(content: &str) -> Vec<ImportStatement> {
    parse_imports_from_str(content, "test.ts")
}

#[test]
fn extracts_named_import() {
    let imports = parse("import { foo } from './bar';");
    assert_eq!(imports.len(), 1);
    assert_eq!(imports[0].specifier, "./bar");
    assert_eq!(imports[0].kind, ImportKind::Named);
}

#[test]
fn extracts_default_import() {
    let imports = parse("import foo from './bar';");
    assert_eq!(imports.len(), 1);
    assert_eq!(imports[0].specifier, "./bar");
    assert_eq!(imports[0].kind, ImportKind::Default);
}

#[test]
fn extracts_namespace_import() {
    let imports = parse("import * as foo from './bar';");
    assert_eq!(imports.len(), 1);
    assert_eq!(imports[0].specifier, "./bar");
    assert_eq!(imports[0].kind, ImportKind::Namespace);
}

#[test]
fn extracts_reexport_named() {
    let imports = parse("export { foo } from './bar';");
    assert_eq!(imports.len(), 1);
    assert_eq!(imports[0].specifier, "./bar");
    assert_eq!(imports[0].kind, ImportKind::ReExportNamed);
}

#[test]
fn extracts_reexport_all() {
    let imports = parse("export * from './bar';");
    assert_eq!(imports.len(), 1);
    assert_eq!(imports[0].specifier, "./bar");
    assert_eq!(imports[0].kind, ImportKind::ReExportAll);
}

#[test]
fn extracts_require() {
    let imports = parse("const foo = require('./bar');");
    assert_eq!(imports.len(), 1);
    assert_eq!(imports[0].specifier, "./bar");
    assert_eq!(imports[0].kind, ImportKind::Require);
}

#[test]
fn extracts_type_only_import() {
    let imports = parse("import type { Foo } from './bar';");
    assert_eq!(imports.len(), 1);
    assert_eq!(imports[0].specifier, "./bar");
    assert_eq!(imports[0].kind, ImportKind::TypeOnly);
}

#[test]
fn extracts_multiple_imports() {
    let content = r#"
        import { a } from './a';
        import b from './b';
        import * as c from './c';
        export { d } from './d';
        export * from './e';
        const f = require('./f');
        import type { G } from './g';
    "#;
    let imports = parse(content);
    assert_eq!(imports.len(), 7);
}

#[test]
fn handles_syntax_errors_gracefully() {
    let imports = parse("import { from './bar'");
    assert!(imports.is_empty());
}

#[test]
fn truncates_at_500_imports() {
    let mut content = String::new();
    for i in 0..501 {
        content.push_str(&format!("import {{ x{i} }} from './m{i}';\n"));
    }
    let imports = parse(&content);
    assert_eq!(imports.len(), 500);
}
