//! Synthesis of the C API shim and the Rust FFI bindings.

use melior_build::cpp_gen::generate_cpp_registration;
use melior_build::rust_gen::generate_rust_ffi;
use melior_build::tblgen::GeneratedFiles;
use melior_build::tblgen::TdFileContents;
use melior_build::Error;

fn provenance(dialect: Option<&str>, ops: Option<&str>) -> GeneratedFiles {
    GeneratedFiles {
        dialect_stem: dialect.map(|s| s.to_string()),
        ops_stem: ops.map(|s| s.to_string()),
        types_stem: None,
        attrs_stem: None,
        enums_stem: None,
        use_function_interface: false,
    }
}

#[test]
fn test_cpp_generation() {
    // Simulate a TD file "OperandTestOps.td" containing dialect and ops
    let generated = provenance(Some("OperandTestOps"), Some("OperandTestOps"));
    let content = generate_cpp_registration(
        "operand_test",
        "mlir::operand_test",
        &generated,
        Some("operand_test"), // Subdirectory based on namespace
    );

    // With subdirectory, the fragment paths have the prefix
    // MLIR convention: stem + "Dialect.h.inc" and stem + ".h.inc"
    assert!(content.contains("operand_test/OperandTestOpsDialect.h.inc"));
    assert!(content.contains("operand_test/OperandTestOpsDialect.cpp.inc"));
    assert!(content.contains("operand_test/OperandTestOps.h.inc"));
    assert!(content.contains("operand_test/OperandTestOps.cpp.inc"));
    assert!(content.contains("mlir::operand_test::OperandTestDialect"));
    assert!(content.contains("MLIR_DEFINE_CAPI_DIALECT_REGISTRATION"));
}

#[test]
fn test_cpp_generation_no_subdir() {
    // Simulate a TD file "SimpleOps.td" containing dialect and ops
    let generated = provenance(Some("SimpleOps"), Some("SimpleOps"));
    let content = generate_cpp_registration(
        "simple",
        "mlir::simple",
        &generated,
        None, // No subdirectory
    );

    // Without a subdirectory the fragment names carry no prefix
    // MLIR convention: stem + "Dialect.h.inc" and stem + ".h.inc"
    assert!(content.contains("\"SimpleOpsDialect.h.inc\""));
    assert!(content.contains("\"SimpleOps.h.inc\""));
    // Should NOT contain subdirectory prefix
    assert!(!content.contains("simple/Simple"));
}

#[test]
fn test_cpp_generation_conditional_blocks() {
    // only the contributed capabilities appear, each under its own stem
    let generated = GeneratedFiles {
        dialect_stem: Some("ADialect".to_string()),
        ops_stem: None,
        types_stem: Some("BTypes".to_string()),
        attrs_stem: None,
        enums_stem: Some("CEnums".to_string()),
        use_function_interface: true,
    };
    let content = generate_cpp_registration("mix", "mlir::mix", &generated, Some("mix"));
    assert!(content.contains("mix/ADialectDialect.h.inc"));
    assert!(content.contains("mix/BTypesTypes.h.inc"));
    assert!(content.contains("mix/CEnumsEnums.cpp.inc"));
    assert!(content.contains("mlir/Interfaces/FunctionInterfaces.h"));
    assert!(content.contains("GET_TYPEDEF_CLASSES"));
    assert!(!content.contains("GET_OP_CLASSES"));
    assert!(!content.contains("GET_ATTRDEF_CLASSES"));
}

#[test]
fn test_cpp_generation_deterministic() {
    // identical inputs give byte-identical text
    let generated = provenance(Some("OperandTestOps"), Some("OperandTestOps"));
    let first = generate_cpp_registration("op_test", "mlir::op_test", &generated, Some("op_test"));
    let second = generate_cpp_registration("op_test", "mlir::op_test", &generated, Some("op_test"));
    assert_eq!(first, second);
}

#[test]
fn test_rust_ffi_generation() {
    let content = generate_rust_ffi("operand_test");

    assert!(content.contains("mlirGetDialectHandle__operand_test__"));
    assert!(content.contains("pub fn dialect_handle()"));
    assert!(content.contains("pub fn register("));
    assert!(content.contains("pub fn load("));
    assert!(content.contains("pub fn insert_into_registry("));
    assert!(content.contains("::melior::dialect::DialectHandle"));
}

#[test]
fn test_rust_ffi_syntax() {
    let content = generate_rust_ffi("my_dialect");

    assert!(content.contains("mod my_dialect_registration"));
    assert!(content.contains("pub use my_dialect_registration::"));

    let open_braces = content.matches('{').count();
    let close_braces = content.matches('}').count();
    assert_eq!(open_braces, close_braces, "Braces should be balanced");
}

#[test]
fn test_rust_ffi_deterministic() {
    assert_eq!(generate_rust_ffi("abc"), generate_rust_ffi("abc"));
}

#[test]
fn test_aggregate_first_contributor_wins() {
    let ops_only = TdFileContents {
        has_dialect: false,
        has_ops: true,
        has_types: false,
        has_attrs: false,
        has_enums: false,
        has_function_interface: false,
    };
    let with_iface = TdFileContents {
        has_dialect: true,
        has_ops: true,
        has_types: false,
        has_attrs: false,
        has_enums: false,
        has_function_interface: true,
    };
    let entries = vec![
        ("First".to_string(), ops_only),
        ("Second".to_string(), with_iface),
    ];
    let agg = GeneratedFiles::aggregate(&entries);
    assert_eq!(agg.ops_stem, Some("First".to_string()));
    assert_eq!(agg.dialect_stem, Some("Second".to_string()));
    assert_eq!(agg.types_stem, None);
    assert!(agg.use_function_interface);
}

#[test]
fn test_error_messages() {
    assert_eq!(
        Error::TblgenFailed("boom".to_string()).message(),
        "mlir-tblgen failed: boom"
    );
    assert_eq!(
        Error::TblgenNotFound("/x/bin/mlir-tblgen".to_string()).message(),
        "Could not find mlir-tblgen binary at /x/bin/mlir-tblgen"
    );
    assert!(Error::MissingOutDir.message().contains("build script"));
}

#[test]
fn test_tblgen_failure_diagnostic() {
    let err = melior_build::tblgen::tblgen_failure("-gen-op-decls", "boom");
    assert_eq!(
        err.message(),
        "mlir-tblgen failed: mlir-tblgen -gen-op-decls failed:\nboom"
    );
}
