//! Namespace resolution behaviour.

use melior_build::DialectBuilder;

#[test]
fn test_namespace_subdir_mlir_prefix() {
    let builder = DialectBuilder::new("test").cpp_namespace("mlir::bril");
    assert_eq!(
        builder.namespace_subdir().unwrap(),
        Some("bril".to_string())
    );
}

#[test]
fn test_namespace_subdir_single_level_errors() {
    // Single-level namespace should error - must use mlir::X pattern
    let builder = DialectBuilder::new("test").cpp_namespace("bril");
    let err = builder.namespace_subdir().unwrap_err();
    assert!(
        err.message()
            .contains("must use the 'mlir::namespace' pattern")
    );
    assert!(err.message().contains("Did you mean 'mlir::bril'"));
}

#[test]
fn test_namespace_subdir_too_deep() {
    let builder = DialectBuilder::new("test").cpp_namespace("mlir::foo::bar");
    let err = builder.namespace_subdir().unwrap_err();
    assert!(err.message().contains("has more than 2 levels"));
}

#[test]
fn test_namespace_subdir_none() {
    let builder = DialectBuilder::new("test");
    assert_eq!(builder.namespace_subdir().unwrap(), None);
}

#[test]
fn test_namespace_subdir_empty_string() {
    let builder = DialectBuilder::new("test").cpp_namespace("");
    assert_eq!(builder.namespace_subdir().unwrap(), None);
}

#[test]
fn test_namespace_subdir_whitespace() {
    let builder = DialectBuilder::new("test").cpp_namespace("  mlir::bril  ");
    assert_eq!(
        builder.namespace_subdir().unwrap(),
        Some("bril".to_string())
    );
}

#[test]
fn test_namespace_subdir_only_mlir() {
    // "mlir" alone should error (single-level)
    let builder = DialectBuilder::new("test").cpp_namespace("mlir");
    let err = builder.namespace_subdir().unwrap_err();
    assert!(
        err.message()
            .contains("must use the 'mlir::namespace' pattern")
    );
}

#[test]
fn test_namespace_subdir_trailing_colons() {
    let builder = DialectBuilder::new("test").cpp_namespace("mlir::bril::");
    let err = builder.namespace_subdir().unwrap_err();
    assert!(err.message().contains("invalid leading or trailing '::'"));
}

#[test]
fn test_namespace_subdir_leading_colons() {
    let builder = DialectBuilder::new("test").cpp_namespace("::mlir::bril");
    let err = builder.namespace_subdir().unwrap_err();
    assert!(err.message().contains("invalid leading or trailing '::'"));
}

#[test]
fn test_namespace_resolution_idempotent() {
    // resolving the same namespace twice yields the same result
    let builder = DialectBuilder::new("test").cpp_namespace("mlir::bril");
    assert_eq!(
        builder.namespace_subdir().unwrap(),
        builder.namespace_subdir().unwrap()
    );
    let failing = DialectBuilder::new("test").cpp_namespace("mlir::a::b");
    assert_eq!(
        failing.namespace_subdir().unwrap_err().message(),
        failing.namespace_subdir().unwrap_err().message()
    );
}

#[test]
fn test_namespace_subdir_wrong_root() {
    // two levels under a foreign root fall under the depth diagnostic
    let builder = DialectBuilder::new("test").cpp_namespace("foo::bar");
    let err = builder.namespace_subdir().unwrap_err();
    assert!(err.message().contains("has more than 2 levels"));
}

#[test]
fn test_namespace_subdir_unicode_whitespace() {
    // trimming covers the whole White_Space set, not just ASCII blanks
    let padded = DialectBuilder::new("test").cpp_namespace("\u{000C}mlir::bril\u{00A0}");
    assert_eq!(padded.namespace_subdir().unwrap(), Some("bril".to_string()));
    let blank = DialectBuilder::new("test").cpp_namespace("\u{00A0}\u{2003}");
    assert_eq!(blank.namespace_subdir().unwrap(), None);
}
