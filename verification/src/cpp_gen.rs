//! Synthesis of the C API registration shim.
//!
//! The shim is one C++ translation unit that pulls every generated
//! fragment together and defines the C-ABI registration entry points for
//! the dialect. Its text is a pure function of the dialect name, the
//! namespace, the capability provenance record and the resolved
//! subdirectory: identical inputs always yield byte-identical text, with
//! capability blocks in a fixed canonical order.

use vstd::prelude::*;
use vstd::string::StringExecFns;

use crate::class_name_of;
use crate::tblgen::GeneratedFiles;

verus! {

/// A C++ inclusion directive for `path`.
pub open spec fn inc_directive(path: Seq<char>) -> Seq<char> {
    "#inclu"@ + "de \""@ + path + "\"\n"@
}

/// The subdirectory prefix of every generated fragment path.
pub open spec fn inc_prefix(sub: Option<Seq<char>>) -> Seq<char> {
    match sub {
        Some(d) => d + "/"@,
        None => Seq::empty(),
    }
}

/// One capability's fragment directive: present capabilities contribute
/// the directive for their own stem, absent ones contribute nothing.
pub open spec fn piece_of(stem: Option<String>, p: Seq<char>, suffix: Seq<char>) -> Seq<char> {
    match stem {
        Some(s) => inc_directive(p + s@ + suffix),
        None => Seq::<char>::empty(),
    }
}

/// Like [`piece_of`], with a class-gate line before the directive.
pub open spec fn gated_piece_of(
    stem: Option<String>,
    p: Seq<char>,
    gate: Seq<char>,
    suffix: Seq<char>,
) -> Seq<char> {
    match stem {
        Some(s) => gate + inc_directive(p + s@ + suffix),
        None => Seq::<char>::empty(),
    }
}

/// Leading comment and fixed headers of the shim.
pub open spec fn shim_header(name: Seq<char>, iface: bool) -> Seq<char> {
    "// C API registration for the '"@ + name + "' dialect.\n\n"@ + inc_directive(
        "mlir/CAPI/Registration.h"@,
    ) + (if iface {
        inc_directive("mlir/Interfaces/FunctionInterfaces.h"@)
    } else {
        Seq::<char>::empty()
    }) + "\n"@
}

/// The declaration fragments, one per present capability, in canonical
/// order.
pub open spec fn shim_decl_section(g: GeneratedFiles, p: Seq<char>) -> Seq<char> {
    piece_of(g.dialect_stem, p, "Dialect.h.inc"@) + gated_piece_of(
        g.ops_stem,
        p,
        "#define GET_OP_CLASSES\n"@,
        ".h.inc"@,
    ) + gated_piece_of(g.types_stem, p, "#define GET_TYPEDEF_CLASSES\n"@, "Types.h.inc"@)
        + gated_piece_of(g.attrs_stem, p, "#define GET_ATTRDEF_CLASSES\n"@, "Attrs.h.inc"@)
        + piece_of(g.enums_stem, p, "Enums.h.inc"@) + "\n"@
}

/// The definition fragments, one per present capability, in canonical
/// order.
pub open spec fn shim_impl_section(g: GeneratedFiles, p: Seq<char>) -> Seq<char> {
    piece_of(g.dialect_stem, p, "Dialect.cpp.inc"@) + piece_of(g.ops_stem, p, ".cpp.inc"@)
        + piece_of(g.types_stem, p, "Types.cpp.inc"@) + piece_of(
        g.attrs_stem,
        p,
        "Attrs.cpp.inc"@,
    ) + piece_of(g.enums_stem, p, "Enums.cpp.inc"@) + "\n"@
}

/// The fixed macro invocation that defines the C-ABI entry points.
pub open spec fn shim_footer(name: Seq<char>, ns: Seq<char>) -> Seq<char> {
    "MLIR_DEFINE_CAPI_DIALECT_REGISTRATION("@ + class_name_of(name) + ", "@ + name + ", "@ + ns
        + "::"@ + class_name_of(name) + "Dialect)\n"@
}

/// The complete shim text.
pub open spec fn cpp_registration_spec(
    name: Seq<char>,
    ns: Seq<char>,
    g: GeneratedFiles,
    sub: Option<Seq<char>>,
) -> Seq<char> {
    shim_header(name, g.use_function_interface) + shim_decl_section(g, inc_prefix(sub))
        + shim_impl_section(g, inc_prefix(sub)) + shim_footer(name, ns)
}

/// Law: shim synthesis is deterministic. Any two texts that meet the
/// synthesizer's contract on the same (name, namespace, provenance,
/// subdirectory) tuple are byte-identical.
pub proof fn lemma_shim_synthesis_deterministic(
    name: Seq<char>,
    ns: Seq<char>,
    g: GeneratedFiles,
    sub: Option<Seq<char>>,
    r1: Seq<char>,
    r2: Seq<char>,
)
    requires
        r1 == cpp_registration_spec(name, ns, g, sub),
        r2 == cpp_registration_spec(name, ns, g, sub),
    ensures
        r1 == r2,
{
}

/// Append one inclusion directive for `pfx + stem + suffix`.
fn push_inc(out: &mut String, pfx: &str, stem: &str, suffix: &str)
    ensures
        final(out)@ == old(out)@ + inc_directive(pfx@ + stem@ + suffix@),
{
    out.append("#inclu");
    out.append("de \"");
    out.append(pfx);
    out.append(stem);
    out.append(suffix);
    out.append("\"\n");
    proof {
        assert(out@ =~= old(out)@ + inc_directive(pfx@ + stem@ + suffix@));
    }
}

/// Append one capability's fragment directive, if the capability is
/// present.
fn push_piece(out: &mut String, pfx: &str, stem: &Option<String>, suffix: &str)
    ensures
        final(out)@ == old(out)@ + piece_of(*stem, pfx@, suffix@),
{
    match stem {
        Some(s) => push_inc(out, pfx, s.as_str(), suffix),
        None => {},
    }
}

/// Append one gated capability block, if the capability is present.
fn push_gated_piece(out: &mut String, pfx: &str, stem: &Option<String>, gate: &str, suffix: &str)
    ensures
        final(out)@ == old(out)@ + gated_piece_of(*stem, pfx@, gate@, suffix@),
{
    let ghost o0 = out@;
    match stem {
        Some(s) => {
            out.append(gate);
            push_inc(out, pfx, s.as_str(), suffix);
            proof {
                assert(out@ =~= o0 + gated_piece_of(*stem, pfx@, gate@, suffix@));
            }
        },
        None => {},
    }
}

/// Append the leading comment and the fixed headers.
fn push_header(out: &mut String, dialect_name: &str, iface: bool)
    ensures
        final(out)@ == old(out)@ + shim_header(dialect_name@, iface),
{
    let ghost o0 = out@;
    out.append("// C API registration for the '");
    out.append(dialect_name);
    out.append("' dialect.\n\n");
    out.append("#inclu");
    out.append("de \"");
    out.append("mlir/CAPI/Registration.h");
    out.append("\"\n");
    if iface {
        out.append("#inclu");
        out.append("de \"");
        out.append("mlir/Interfaces/FunctionInterfaces.h");
        out.append("\"\n");
    }
    out.append("\n");
    proof {
        assert(out@ =~= o0 + shim_header(dialect_name@, iface));
    }
}

/// Append the declaration fragments of every present capability.
fn push_decl_section(out: &mut String, g: &GeneratedFiles, pfx: &str)
    ensures
        final(out)@ == old(out)@ + shim_decl_section(*g, pfx@),
{
    let ghost o0 = out@;
    push_piece(out, pfx, &g.dialect_stem, "Dialect.h.inc");
    push_gated_piece(out, pfx, &g.ops_stem, "#define GET_OP_CLASSES\n", ".h.inc");
    push_gated_piece(out, pfx, &g.types_stem, "#define GET_TYPEDEF_CLASSES\n", "Types.h.inc");
    push_gated_piece(out, pfx, &g.attrs_stem, "#define GET_ATTRDEF_CLASSES\n", "Attrs.h.inc");
    push_piece(out, pfx, &g.enums_stem, "Enums.h.inc");
    out.append("\n");
    proof {
        assert(out@ =~= o0 + shim_decl_section(*g, pfx@));
    }
}

/// Append the definition fragments of every present capability.
fn push_impl_section(out: &mut String, g: &GeneratedFiles, pfx: &str)
    ensures
        final(out)@ == old(out)@ + shim_impl_section(*g, pfx@),
{
    let ghost o0 = out@;
    push_piece(out, pfx, &g.dialect_stem, "Dialect.cpp.inc");
    push_piece(out, pfx, &g.ops_stem, ".cpp.inc");
    push_piece(out, pfx, &g.types_stem, "Types.cpp.inc");
    push_piece(out, pfx, &g.attrs_stem, "Attrs.cpp.inc");
    push_piece(out, pfx, &g.enums_stem, "Enums.cpp.inc");
    out.append("\n");
    proof {
        assert(out@ =~= o0 + shim_impl_section(*g, pfx@));
    }
}

/// Append the registration macro line.
fn push_footer(out: &mut String, dialect_name: &str, cpp_namespace: &str)
    ensures
        final(out)@ == old(out)@ + shim_footer(dialect_name@, cpp_namespace@),
{
    let ghost o0 = out@;
    let class = crate::to_class_name(dialect_name);
    out.append("MLIR_DEFINE_CAPI_DIALECT_REGISTRATION(");
    out.append(class.as_str());
    out.append(", ");
    out.append(dialect_name);
    out.append(", ");
    out.append(cpp_namespace);
    out.append("::");
    out.append(class.as_str());
    out.append("Dialect)\n");
    proof {
        assert(out@ =~= o0 + shim_footer(dialect_name@, cpp_namespace@));
    }
}

/// Synthesize the C API registration shim for a dialect.
///
/// Every include path is `<subdirectory>/<stem><suffix>` when a
/// subdirectory exists and bare `<stem><suffix>` otherwise, each
/// capability referencing the stem of the file that contributed it.
pub fn generate_cpp_registration(
    dialect_name: &str,
    cpp_namespace: &str,
    generated: &GeneratedFiles,
    inc_subdir: Option<&str>,
) -> (r: String)
    ensures
        r@ == cpp_registration_spec(
            dialect_name@,
            cpp_namespace@,
            *generated,
            inc_subdir.deep_view(),
        ),
{
    let ghost sub = inc_subdir.deep_view();
    let mut pfx = String::new();
    match inc_subdir {
        Some(d) => {
            pfx.append(d);
            pfx.append("/");
        },
        None => {},
    }
    proof {
        assert(pfx@ =~= inc_prefix(sub));
    }
    let mut out = String::new();
    push_header(&mut out, dialect_name, generated.use_function_interface);
    push_decl_section(&mut out, generated, pfx.as_str());
    push_impl_section(&mut out, generated, pfx.as_str());
    push_footer(&mut out, dialect_name, cpp_namespace);
    proof {
        assert(out@ =~= cpp_registration_spec(dialect_name@, cpp_namespace@, *generated, sub));
    }
    out
}

} // verus!
