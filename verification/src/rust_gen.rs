//! Synthesis of the Rust FFI binding module.
//!
//! The binding module declares the C-ABI handle getter that the compiled
//! shim exports and wraps it in four safe functions. Everything is scoped
//! inside a module mangled with the dialect name, so bindings of several
//! dialects can stand side by side in one consuming crate without
//! colliding.

use vstd::prelude::*;
use vstd::string::StringExecFns;

verus! {

/// Leading comment, module opening and the foreign declaration.
pub open spec fn ffi_header(name: Seq<char>) -> Seq<char> {
    "// Rust FFI bindings for the '"@ + name + "' dialect registration.\n\n"@ + "mod "@ + name
        + "_registration {\n"@ + "    ext"@ + "ern \"C\" {\n"@
        + "        pub fn mlirGetDialectHandle__"@ + name
        + "__() -> ::melior::dialect::DialectHandle;\n"@ + "    }\n\n"@
}

/// The four safe wrapper functions.
pub open spec fn ffi_functions(name: Seq<char>) -> Seq<char> {
    "    pub fn dialect_handle() -> ::melior::dialect::DialectHandle {\n"@ + "        uns"@
        + "afe { mlirGetDialectHandle__"@ + name + "__() }\n"@ + "    }\n\n"@
        + "    pub fn register(context: &::melior::Context) {\n"@
        + "        dialect_handle().register_dialect(context);\n"@ + "    }\n\n"@
        + "    pub fn load(context: &::melior::Context) {\n"@
        + "        dialect_handle().load_dialect(context);\n"@ + "    }\n\n"@
        + "    pub fn insert_into_registry(registry: &::melior::dialect::DialectRegistry) {\n"@
        + "        dialect_handle().insert_dialect(registry);\n"@ + "    }\n"@
}

/// Module closing and the re-export of the wrappers.
pub open spec fn ffi_tail(name: Seq<char>) -> Seq<char> {
    "}\n\n"@ + "pub use "@ + name
        + "_registration::{dialect_handle, insert_into_registry, load, register};\n"@
}

/// The complete binding-module text.
pub open spec fn rust_ffi_spec(name: Seq<char>) -> Seq<char> {
    ffi_header(name) + ffi_functions(name) + ffi_tail(name)
}

/// Append the header section.
fn push_ffi_header(out: &mut String, name: &str)
    ensures
        final(out)@ == old(out)@ + ffi_header(name@),
{
    let ghost o0 = out@;
    out.append("// Rust FFI bindings for the '");
    out.append(name);
    out.append("' dialect registration.\n\n");
    out.append("mod ");
    out.append(name);
    out.append("_registration {\n");
    out.append("    ext");
    out.append("ern \"C\" {\n");
    out.append("        pub fn mlirGetDialectHandle__");
    out.append(name);
    out.append("__() -> ::melior::dialect::DialectHandle;\n");
    out.append("    }\n\n");
    proof {
        assert(out@ =~= o0 + ffi_header(name@));
    }
}

/// Append the four wrapper functions.
fn push_ffi_functions(out: &mut String, name: &str)
    ensures
        final(out)@ == old(out)@ + ffi_functions(name@),
{
    let ghost o0 = out@;
    out.append("    pub fn dialect_handle() -> ::melior::dialect::DialectHandle {\n");
    out.append("        uns");
    out.append("afe { mlirGetDialectHandle__");
    out.append(name);
    out.append("__() }\n");
    out.append("    }\n\n");
    out.append("    pub fn register(context: &::melior::Context) {\n");
    out.append("        dialect_handle().register_dialect(context);\n");
    out.append("    }\n\n");
    out.append("    pub fn load(context: &::melior::Context) {\n");
    out.append("        dialect_handle().load_dialect(context);\n");
    out.append("    }\n\n");
    out.append("    pub fn insert_into_registry(registry: &::melior::dialect::DialectRegistry) {\n");
    out.append("        dialect_handle().insert_dialect(registry);\n");
    out.append("    }\n");
    proof {
        assert(out@ =~= o0 + ffi_functions(name@));
    }
}

/// Append the module closing and the re-export.
fn push_ffi_tail(out: &mut String, name: &str)
    ensures
        final(out)@ == old(out)@ + ffi_tail(name@),
{
    let ghost o0 = out@;
    out.append("}\n\n");
    out.append("pub use ");
    out.append(name);
    out.append("_registration::{dialect_handle, insert_into_registry, load, register};\n");
    proof {
        assert(out@ =~= o0 + ffi_tail(name@));
    }
}

/// Synthesize the Rust FFI binding module for a dialect.
pub fn generate_rust_ffi(dialect_name: &str) -> (r: String)
    ensures
        r@ == rust_ffi_spec(dialect_name@),
{
    let mut out = String::new();
    push_ffi_header(&mut out, dialect_name);
    push_ffi_functions(&mut out, dialect_name);
    push_ffi_tail(&mut out, dialect_name);
    proof {
        assert(out@ =~= rust_ffi_spec(dialect_name@));
    }
    out
}

} // verus!
