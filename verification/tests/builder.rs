//! Builder construction, naming helpers, and whole-build planning.

use melior_build::llvm_env_var_name;
use melior_build::tblgen::file_stem;
use melior_build::to_class_name;
use melior_build::DialectBuilder;

#[test]
fn test_dialect_builder_construction() {
    let _builder = DialectBuilder::new("test_dialect")
        .td_file("path/to/dialect.td")
        .include_dir("/usr/include")
        .cpp_namespace("mlir::test");
}

#[test]
fn test_dialect_builder_multiple_files() {
    let _builder = DialectBuilder::new("multi")
        .td_files(&["file1.td", "file2.td", "file3.td"])
        .include_dirs(&["/include1", "/include2"]);
}

#[test]
fn test_dialect_builder_cpp_files() {
    let _builder = DialectBuilder::new("my_dialect")
        .td_file("dialect.td")
        .cpp_file("src/Verifiers.cpp")
        .cpp_files(&["src/Canonicalize.cpp", "src/Builders.cpp"]);
}

#[test]
fn test_to_class_name() {
    assert_eq!(to_class_name("toy"), "Toy");
    assert_eq!(to_class_name("math_ext"), "MathExt");
    assert_eq!(to_class_name("my_custom_dialect"), "MyCustomDialect");
    assert_eq!(to_class_name(""), "");
}

#[test]
fn test_to_class_name_unicode() {
    // the first character of a part gets the full uppercase mapping,
    // which may expand to several characters
    assert_eq!(to_class_name("\u{00E0}bc"), "\u{00C0}bc");
    assert_eq!(to_class_name("\u{00DF}x"), "SSx");
    assert_eq!(to_class_name("a_\u{00E9}"), "A\u{00C9}");
}

#[test]
fn test_file_stem_rules() {
    assert_eq!(file_stem("a/b/Foo.td").unwrap(), "Foo");
    assert_eq!(file_stem("Foo.tar.gz").unwrap(), "Foo.tar");
    assert_eq!(file_stem(".hidden").unwrap(), ".hidden");
    assert_eq!(file_stem("plain").unwrap(), "plain");
    // trailing separators name the same entry
    assert_eq!(file_stem("dir/").unwrap(), "dir");
    assert_eq!(file_stem("a/b///").unwrap(), "b");
    assert!(file_stem("/").is_err());
    assert!(file_stem("..").is_err());
    let err = file_stem("").unwrap_err();
    assert!(err.message().contains("Invalid TD file path"));
}

#[test]
fn test_llvm_env_var_name() {
    assert_eq!(llvm_env_var_name("21.1.0").unwrap(), "MLIR_SYS_210_PREFIX");
    assert_eq!(llvm_env_var_name("19"), Some("MLIR_SYS_190_PREFIX".to_string()));
    assert_eq!(llvm_env_var_name("x.y"), None);
    assert_eq!(llvm_env_var_name(""), None);
}

#[test]
fn test_llvm_env_var_name_numeric_forms() {
    // the major component parses as a number, so non-canonical spellings
    // normalize and out-of-range values are rejected
    assert_eq!(llvm_env_var_name("021.0").unwrap(), "MLIR_SYS_210_PREFIX");
    assert_eq!(llvm_env_var_name("+21.0").unwrap(), "MLIR_SYS_210_PREFIX");
    assert_eq!(llvm_env_var_name("000.9").unwrap(), "MLIR_SYS_00_PREFIX");
    assert_eq!(llvm_env_var_name("4294967295"), Some("MLIR_SYS_42949672950_PREFIX".to_string()));
    assert_eq!(llvm_env_var_name("4294967296.0"), None);
    assert_eq!(llvm_env_var_name("99999999999999999999.1"), None);
    assert_eq!(llvm_env_var_name("+.1"), None);
    assert_eq!(llvm_env_var_name("-21.0"), None);
}

#[test]
fn test_resolve_output_dir() {
    let with_override = DialectBuilder::new("d").output_dir("/build/out");
    assert_eq!(with_override.resolve_output_dir(None).unwrap(), "/build/out");
    let without = DialectBuilder::new("d");
    assert_eq!(
        without.resolve_output_dir(Some("/ambient")).unwrap(),
        "/ambient"
    );
    let err = without.resolve_output_dir(None).unwrap_err();
    assert!(err.message().contains("OUT_DIR"));
}

#[test]
fn test_resolve_llvm_prefix() {
    let probed = DialectBuilder::resolve_llvm_prefix(Some("/opt/llvm"), None, None).unwrap();
    assert_eq!(probed, "/opt/llvm");
    let overridden =
        DialectBuilder::resolve_llvm_prefix(Some("/opt/llvm"), Some("/opt/llvm-21"), None)
            .unwrap();
    assert_eq!(overridden, "/opt/llvm-21");
    let generic = DialectBuilder::resolve_llvm_prefix(None, None, Some("/usr/llvm")).unwrap();
    assert_eq!(generic, "/usr/llvm");
    let err = DialectBuilder::resolve_llvm_prefix(None, None, None).unwrap_err();
    assert!(err.message().contains("Could not find LLVM/MLIR"));
}

#[test]
fn test_bril_end_to_end() {
    // dialect "bril", namespace "mlir::bril", one file defining the
    // dialect, five operations and one type record
    let builder = DialectBuilder::new("bril")
        .cpp_namespace("mlir::bril")
        .td_file("dialects/BrilOps.td");
    assert_eq!(
        builder.namespace_subdir().unwrap(),
        Some("bril".to_string())
    );
    let text = "def Bril_Dialect : Dialect { let name = \"bril\"; }\n\
        class Bril_Op<string m> : Op<Bril_Dialect, m>;\n\
        def Bril_ConstOp : Bril_Op<\"const\"> {}\n\
        def Bril_AddOp : Bril_Op<\"add\"> {}\n\
        def Bril_MulOp : Bril_Op<\"mul\"> {}\n\
        def Bril_PrintOp : Bril_Op<\"print\"> {}\n\
        def Bril_RetOp : Bril_Op<\"ret\"> {}\n\
        def Bril_PtrType : TypeDef<Bril_Dialect, \"Ptr\"> {}\n";
    let texts = vec![text.to_string()];
    let plan = builder
        .generation_plan(&texts, "/tmp/build-out", "/opt/llvm", true)
        .unwrap();
    assert_eq!(plan.inc_subdir, Some("bril".to_string()));
    assert_eq!(plan.generated.dialect_stem, Some("BrilOps".to_string()));
    assert_eq!(plan.generated.ops_stem, Some("BrilOps".to_string()));
    assert_eq!(plan.generated.types_stem, Some("BrilOps".to_string()));
    assert_eq!(plan.generated.attrs_stem, None);
    assert_eq!(plan.generated.enums_stem, None);
    assert!(plan.cpp_source.contains("mlir::bril::BrilDialect"));
    assert!(plan.cpp_source.contains("bril/BrilOps.h.inc"));
    assert!(plan.cpp_source.contains("MLIR_DEFINE_CAPI_DIALECT_REGISTRATION"));
    assert!(plan.rust_source.contains("pub fn dialect_handle()"));
    assert!(plan.rust_source.contains("pub fn register("));
    assert!(plan.rust_source.contains("pub fn load("));
    assert!(plan.rust_source.contains("pub fn insert_into_registry("));
    assert_eq!(
        plan.rust_source.matches('{').count(),
        plan.rust_source.matches('}').count()
    );
    // per-file invocations: dialect, ops and types, two passes each
    assert_eq!(plan.file_plans.len(), 1);
    let runs = &plan.file_plans[0].runs;
    assert_eq!(runs.len(), 6);
    assert_eq!(runs[0].action, "-gen-dialect-decls");
    assert_eq!(runs[0].output, "/tmp/build-out/inc/bril/BrilOpsDialect.h.inc");
    assert_eq!(runs[2].action, "-gen-op-decls");
    assert_eq!(runs[3].output, "/tmp/build-out/inc/bril/BrilOps.cpp.inc");
    assert_eq!(runs[4].action, "-gen-typedef-decls");
}

#[test]
fn test_simple_end_to_end_no_namespace() {
    // dialect "simple", no namespace: no subdirectory, bare fragment
    // names in the shim
    let builder = DialectBuilder::new("simple").td_file("SimpleOps.td");
    assert_eq!(builder.namespace_subdir().unwrap(), None);
    let text = "def Simple_Dialect : Dialect { let name = \"simple\"; }\n\
        def Simple_NopOp : Op<Simple_Dialect, \"nop\"> {}\n";
    let texts = vec![text.to_string()];
    let plan = builder
        .generation_plan(&texts, "/tmp/build-out", "/opt/llvm", true)
        .unwrap();
    assert_eq!(plan.inc_subdir, None);
    assert!(plan.cpp_source.contains("\"SimpleOpsDialect.h.inc\""));
    assert!(plan.cpp_source.contains("\"SimpleOps.h.inc\""));
    assert!(!plan.cpp_source.contains("simple/Simple"));
    assert!(plan.cpp_source.contains("mlir::simple::SimpleDialect"));
}

#[test]
fn test_generation_plan_reports_missing_tblgen() {
    let builder = DialectBuilder::new("d").td_file("X.td");
    let texts = vec![String::new()];
    let err = builder
        .generation_plan(&texts, "/out", "/opt/llvm", false)
        .unwrap_err();
    assert!(err.message().contains("mlir-tblgen"));
    assert!(err.message().contains("/opt/llvm/bin/mlir-tblgen"));
}

#[test]
fn test_generation_plan_reports_bad_path() {
    let builder = DialectBuilder::new("d").td_file("..");
    let texts = vec![String::new()];
    let err = builder
        .generation_plan(&texts, "/out", "/opt/llvm", true)
        .unwrap_err();
    assert!(err.message().contains("Invalid TD file path: .."));
}

#[test]
fn test_generation_plan_reports_bad_namespace() {
    let builder = DialectBuilder::new("d").td_file("X.td").cpp_namespace("deep::x::y");
    let texts = vec![String::new()];
    let err = builder
        .generation_plan(&texts, "/out", "/opt/llvm", true)
        .unwrap_err();
    assert!(err.message().contains("has more than 2 levels"));
}

#[test]
fn test_stem_provenance_per_capability() {
    // distinct capabilities keep the stems of their own files
    let builder = DialectBuilder::new("multi")
        .cpp_namespace("mlir::multi")
        .td_files(&["d/MultiDialect.td", "d/MultiTypes.td", "d/MultiOps.td"]);
    let texts = vec![
        "def Multi_Dialect : Dialect {}".to_string(),
        "def Multi_VecType : TypeDef<Multi_Dialect, \"Vec\"> {}".to_string(),
        "def Multi_NopOp : Op<Multi_Dialect, \"nop\"> {}".to_string(),
    ];
    let plan = builder
        .generation_plan(&texts, "/o", "/llvm", true)
        .unwrap();
    assert_eq!(plan.generated.dialect_stem, Some("MultiDialect".to_string()));
    assert_eq!(plan.generated.types_stem, Some("MultiTypes".to_string()));
    assert_eq!(plan.generated.ops_stem, Some("MultiOps".to_string()));
    assert!(plan.cpp_source.contains("multi/MultiDialectDialect.h.inc"));
    assert!(plan.cpp_source.contains("multi/MultiTypesTypes.h.inc"));
    assert!(plan.cpp_source.contains("multi/MultiOps.h.inc"));
}
