//! Classification of TableGen file texts.

use melior_build::tblgen::detect_td_contents;

#[test]
fn test_detect_dialect() {
    let text = "\ndef Bril_Dialect : Dialect {\n    let name = \"bril\";\n}\n";
    let contents = detect_td_contents(text);
    assert!(contents.has_dialect);
    assert!(!contents.has_ops);
    assert!(!contents.has_types);
}

#[test]
fn test_detect_ops() {
    let text = "\ndef Bril_AddOp : Bril_Op<\"add\", [Pure]> {\n    let arguments = (ins I64:$lhs, I64:$rhs);\n    let results = (outs I64);\n}\n";
    let contents = detect_td_contents(text);
    assert!(!contents.has_dialect);
    assert!(
        contents.has_ops,
        "Should detect ops using custom _Op< base class"
    );
    assert!(!contents.has_types);
}

#[test]
fn test_detect_types() {
    let text = "\ndef Bril_PtrType : Bril_Type<\"Ptr\", \"ptr\"> {\n    let mnemonic = \"ptr\";\n}\n";
    let contents = detect_td_contents(text);
    assert!(!contents.has_dialect);
    assert!(!contents.has_ops);
    assert!(
        contents.has_types,
        "Should detect types using custom _Type< base class"
    );
}

#[test]
fn test_detect_combined() {
    let text = "\ndef Bril_Dialect : Dialect {\n    let name = \"bril\";\n}\n\ndef Bril_PtrType : Bril_Type<\"Ptr\", \"ptr\"> {\n    let mnemonic = \"ptr\";\n}\n\ndef Bril_AddOp : Bril_Op<\"add\", [Pure]> {\n    let arguments = (ins I64:$lhs, I64:$rhs);\n    let results = (outs I64);\n}\n";
    let contents = detect_td_contents(text);
    assert!(contents.has_dialect);
    assert!(contents.has_ops);
    assert!(contents.has_types);
    assert!(contents.has_any());
}

#[test]
fn test_detect_direct_op() {
    // Detection of direct Op< usage (not via custom base class)
    let text = "\ndef MyOp : Op<MyDialect, \"my_op\"> {\n    let results = (outs I64);\n}\n";
    let contents = detect_td_contents(text);
    assert!(contents.has_ops, "Should detect direct Op< usage");
}

#[test]
fn test_detect_function_interface() {
    let text = format!(
        "\n{}{} \"mlir/Interfaces/FunctionInterfaces.td\"\n\n{}",
        "incl",
        "ude",
        "def Bril_FuncOp : Bril_Op<\"func\", [\n    FunctionOpInterface,\n    IsolatedFromAbove\n]> {\n    let arguments = (ins);\n}\n"
    );
    let contents = detect_td_contents(&text);
    assert!(
        contents.has_function_interface,
        "Should detect FunctionOpInterface usage"
    );
    assert!(contents.has_ops, "Should also detect ops");
}

#[test]
fn test_detect_no_function_interface() {
    let text = "\ndef Bril_AddOp : Bril_Op<\"add\", [Pure]> {\n    let arguments = (ins I64:$lhs, I64:$rhs);\n    let results = (outs I64);\n}\n";
    let contents = detect_td_contents(text);
    assert!(
        !contents.has_function_interface,
        "Should NOT detect FunctionOpInterface when not present"
    );
}

#[test]
fn test_class_definitions_not_detected_as_ops() {
    // Base class declarations (using `class`) are NOT detected as ops.
    // Only actual op definitions (using `def`) count.
    let text = "\ndef Bril_Dialect : Dialect {\n    let name = \"bril\";\n}\n\n// This is a base class definition, NOT an op\nclass Bril_Op<string mnemonic, list<Trait> traits = []> :\n    Op<Bril_Dialect, mnemonic, traits>;\n\n// Similarly, base class for types should not count\nclass Bril_Type<string name, string typeMnemonic, list<Trait> traits = []> :\n    TypeDef<Bril_Dialect, name, traits>;\n";
    let contents = detect_td_contents(text);
    assert!(contents.has_dialect, "Should detect dialect");
    assert!(
        !contents.has_ops,
        "Should NOT detect ops from class definitions"
    );
    assert!(
        !contents.has_types,
        "Should NOT detect types from class definitions"
    );
}

#[test]
fn test_detect_enum_tokens() {
    let with_enum = "def MyEnum : I32EnumAttr<\"MyEnum\", \"example\", []>;";
    assert!(detect_td_contents(with_enum).has_enums);
    let with_bit_enum = "def Flags : BitEnumAttr<I32, \"flags\", []>;";
    assert!(detect_td_contents(with_bit_enum).has_enums);
    let without = "def X : Y<\"x\">;";
    assert!(!detect_td_contents(without).has_enums);
}

#[test]
fn test_detect_attrs() {
    let custom = "def Bril_FancyAttr : Bril_Attr<\"Fancy\", \"fancy\"> {}";
    assert!(detect_td_contents(custom).has_attrs);
    let direct = "def Fancy : AttrDef<Bril_Dialect, \"Fancy\"> {}";
    assert!(detect_td_contents(direct).has_attrs);
    let class_only = "class Bril_Attr<string name> : AttrDef<Bril_Dialect, name>;";
    assert!(!detect_td_contents(class_only).has_attrs);
}

#[test]
fn test_detect_empty_text() {
    // a file with zero matches is a valid input with all-false flags
    let contents = detect_td_contents("");
    assert!(!contents.has_dialect);
    assert!(!contents.has_ops);
    assert!(!contents.has_types);
    assert!(!contents.has_attrs);
    assert!(!contents.has_enums);
    assert!(!contents.has_function_interface);
    assert!(!contents.has_any());
}

#[test]
fn test_detect_def_across_lines() {
    // the anchor may spread over line breaks
    let text = "def Foo_BarOp :\n    Foo_Op<\"bar\"> {}";
    assert!(detect_td_contents(text).has_ops);
}

#[test]
fn test_combined_sets_only_contributing_flags() {
    // a file defining a namespace root, one op and one type sets exactly
    // those three flags
    let text = "def B_Dialect : Dialect {\n}\ndef B_AddOp : B_Op<\"add\"> {}\ndef B_PtrType : B_Type<\"ptr\"> {}\n";
    let contents = detect_td_contents(text);
    assert!(contents.has_dialect);
    assert!(contents.has_ops);
    assert!(contents.has_types);
    assert!(!contents.has_attrs);
    assert!(!contents.has_enums);
    assert!(!contents.has_function_interface);
}

#[test]
fn test_detect_with_exotic_whitespace() {
    // the recognizers' whitespace class covers vertical tab and form feed
    let vt = "def Bril_Dialect\u{000B}: Dialect {\n}";
    assert!(detect_td_contents(vt).has_dialect);
    let ff = "def\u{000C}Foo_AddOp : Foo_Op<\"add\"> {}";
    assert!(detect_td_contents(ff).has_ops);
}
