//! Build-time helpers for registering custom MLIR dialects.
//!
//! The crate classifies TableGen definition files, validates the configured
//! C++ namespace, plans the per-file `mlir-tblgen` invocations, and
//! synthesizes both the C API registration shim and the Rust FFI bindings
//! that expose it. All of that logic is pure and carries contracts; the
//! surrounding process and file-system work lives with the caller.

pub mod cpp_gen;
pub mod error;
pub mod rust_gen;
pub mod scan;
pub mod tblgen;

pub use error::Error;

use vstd::prelude::*;
use vstd::string::StrSliceExecFns;
use vstd::string::StringExecFns;

use crate::scan::{
    all_space, is_space, is_space_char, lit_at, scan_space_end, space_run_back, space_run_from,
    lemma_space_run_back_agrees, lemma_space_run_from_agrees, to_char_vec,
};

verus! {

/// The full Unicode uppercase mapping of one character, as the one or
/// more characters it expands to. A function of the character alone.
pub uninterp spec fn upper_of(c: char) -> Seq<char>;

/// Relies on char::to_uppercase: yields the character's full Unicode
/// uppercase mapping, one or more characters, depending on the
/// character alone.
#[verifier::external_body]
fn uppercase_char(c: char) -> (r: String)
    ensures
        r@ == upper_of(c),
{
    c.to_uppercase().collect()
}

/// The CamelCase class name of `s` from position `i` on: an underscore is
/// dropped and starts a new part, and the first character of each part is
/// uppercased.
pub open spec fn class_name_from(s: Seq<char>, i: int, start: bool) -> Seq<char>
    decreases s.len() - i,
{
    if i < 0 || i >= s.len() {
        Seq::empty()
    } else if s[i] == '_' {
        class_name_from(s, i + 1, true)
    } else if start {
        upper_of(s[i]) + class_name_from(s, i + 1, false)
    } else {
        seq![s[i]] + class_name_from(s, i + 1, false)
    }
}

/// The CamelCase class name of a dialect name, e.g. `math_ext` becomes
/// `MathExt`.
pub open spec fn class_name_of(s: Seq<char>) -> Seq<char> {
    class_name_from(s, 0, true)
}

/// Convert a dialect name to its CamelCase class name.
pub fn to_class_name(s: &str) -> (r: String)
    ensures
        r@ == class_name_of(s@),
{
    let v = to_char_vec(s);
    let mut out = String::new();
    let mut start = true;
    let mut i: usize = 0;
    while i < v.len()
        invariant
            i <= v.len(),
            v@ == s@,
            out@ + class_name_from(v@, i as int, start) =~= class_name_of(v@),
        decreases v.len() - i,
    {
        let c = v[i];
        if c == '_' {
            start = true;
        } else if start {
            let up = uppercase_char(c);
            out.append(up.as_str());
            start = false;
        } else {
            out.push(c);
            start = false;
        }
        i = i + 1;
    }
    proof {
        assert(out@ + class_name_from(v@, i as int, start) =~= class_name_of(v@));
        assert(class_name_from(v@, i as int, start) =~= Seq::<char>::empty());
        assert(out@ =~= class_name_of(s@));
    }
    out
}

/// ASCII decimal digits.
pub open spec fn is_digit_char(c: char) -> bool {
    '0' as u32 <= c as u32 && c as u32 <= '9' as u32
}

/// Length of the major component of a version string: everything before
/// the first `.`, or the whole string.
pub open spec fn major_len(s: Seq<char>, from: int) -> int
    decreases s.len() - from,
{
    if from < 0 || from >= s.len() {
        s.len() as int
    } else if s[from] == '.' {
        from
    } else {
        major_len(s, from + 1)
    }
}

/// The numeric value of one digit character.
pub open spec fn digit_val(c: char) -> int {
    c as u32 - '0' as u32
}

/// The numeric value of the digit run `[from, to)`, most significant
/// digit first.
pub open spec fn digits_value(s: Seq<char>, from: int, to: int) -> int
    decreases to - from,
{
    if to <= from {
        0
    } else {
        digits_value(s, from, to - 1) * 10 + digit_val(s[to - 1])
    }
}

/// Where the major component's digits start: a single leading `+` sign
/// is accepted, as numeric parsing accepts it.
pub open spec fn major_digits_start(s: Seq<char>) -> int {
    if s.len() > 0 && s[0] == '+' {
        1
    } else {
        0
    }
}

/// The major component parses as a 32-bit number: after the optional
/// sign, at least one digit, and a value within the unsigned 32-bit
/// range.
pub open spec fn has_numeric_major(s: Seq<char>) -> bool {
    let d0 = major_digits_start(s);
    let m = major_len(s, 0);
    &&& m > d0
    &&& forall|x: int| d0 <= x < m ==> is_digit_char(#[trigger] s[x])
    &&& digits_value(s, d0, m) <= u32::MAX as int
}

/// End of the run of `0` characters that starts at `from`.
pub open spec fn zeros_end(s: Seq<char>, from: int, to: int) -> int
    decreases to - from,
{
    if from >= to {
        from
    } else if s[from] == '0' {
        zeros_end(s, from + 1, to)
    } else {
        from
    }
}

/// The major digits in canonical decimal form, as numeric parsing and
/// reformatting leave them: the sign and leading zeros dropped, with an
/// all-zero run kept as a single `0`.
pub open spec fn canonical_major(s: Seq<char>) -> Seq<char> {
    let d0 = major_digits_start(s);
    let m = major_len(s, 0);
    let z = zeros_end(s, d0, m);
    if z == m {
        seq!['0']
    } else {
        s.subrange(z, m)
    }
}

/// The name of the version-specific override variable for an LLVM
/// installation, e.g. `MLIR_SYS_210_PREFIX` for major version 21.
pub open spec fn version_var_name(s: Seq<char>) -> Seq<char> {
    "MLIR_SYS_"@ + canonical_major(s) + "0_PREFIX"@
}

/// Derive the version-specific override variable name from a version
/// string, or nothing when the major component does not parse as a
/// 32-bit number.
pub fn llvm_env_var_name(version: &str) -> (r: Option<String>)
    ensures
        has_numeric_major(version@) ==> (r matches Some(nm) && nm@ == version_var_name(
            version@,
        )),
        !has_numeric_major(version@) ==> r is None,
{
    let v = to_char_vec(version);
    let n = v.len();
    let mut m: usize = 0;
    while m < n && v[m] != '.'
        invariant
            m <= n,
            n == v.len(),
            forall|x: int| 0 <= x < m ==> v@[x] != '.',
        decreases n - m,
    {
        m = m + 1;
    }
    proof {
        // the scan stopped at the first dot or at the end
        lemma_major_len_scan(v@, 0, m as int);
    }
    let d0: usize = if m > 0 && v[0] == '+' {
        1
    } else {
        0
    };
    proof {
        if n > 0 && v@[0] == '+' {
            // a sign is not a dot, so the major component reaches past it
            assert(major_len(v@, 0) == major_len(v@, 1));
            lemma_major_len_bounds(v@, 1);
        }
        assert(d0 as int == major_digits_start(version@));
    }
    if m <= d0 {
        return None;
    }
    let mut acc: u64 = 0;
    let mut x = d0;
    while x < m
        invariant
            d0 <= x <= m <= n,
            n == v.len(),
            v@ == version@,
            major_len(version@, 0) == m as int,
            d0 as int == major_digits_start(version@),
            forall|y: int| d0 <= y < x ==> is_digit_char(#[trigger] v@[y]),
            acc as int == digits_value(v@, d0 as int, x as int),
            acc <= u32::MAX as u64,
        decreases m - x,
    {
        let u = v[x] as u32;
        if !('0' as u32 <= u && u <= '9' as u32) {
            proof {
                assert(!has_numeric_major(version@)) by {
                    if has_numeric_major(version@) {
                        assert(is_digit_char(v@[x as int]));
                    }
                }
            }
            return None;
        }
        let d = (u - '0' as u32) as u64;
        let next = acc * 10 + d;
        if next > 0xFFFF_FFFFu64 {
            proof {
                assert(!has_numeric_major(version@)) by {
                    if has_numeric_major(version@) {
                        assert(digits_value(v@, d0 as int, x + 1) > u32::MAX as int);
                        lemma_digits_value_monotone(v@, d0 as int, x + 1, m as int);
                    }
                }
            }
            return None;
        }
        acc = next;
        x = x + 1;
    }
    let mut z = d0;
    while z < m && v[z] == '0'
        invariant
            d0 <= z <= m <= n,
            n == v.len(),
            forall|y: int| d0 <= y < z ==> v@[y] == '0',
        decreases m - z,
    {
        z = z + 1;
    }
    proof {
        lemma_zeros_end_scan(v@, d0 as int, z as int, m as int);
    }
    let mut nm = "MLIR_SYS_".to_owned();
    if z == m {
        nm.append("0");
        proof {
            reveal_strlit("0");
            assert("0"@ =~= canonical_major(version@));
        }
    } else {
        nm.append(version.substring_char(z, m));
    }
    nm.append("0_PREFIX");
    proof {
        assert(nm@ =~= version_var_name(version@));
    }
    Some(nm)
}

/// A dot-free scan pins down [`major_len`].
proof fn lemma_major_len_scan(s: Seq<char>, from: int, m: int)
    requires
        0 <= from <= m <= s.len(),
        forall|x: int| 0 <= x < m ==> s[x] != '.',
        m < s.len() ==> s[m] == '.',
    ensures
        major_len(s, from) == m,
    decreases m - from,
{
    if from < m {
        lemma_major_len_scan(s, from + 1, m);
    }
}

/// The major component ends between `from` and the end of the string.
proof fn lemma_major_len_bounds(s: Seq<char>, from: int)
    requires
        0 <= from <= s.len(),
    ensures
        from <= major_len(s, from) <= s.len(),
    decreases s.len() - from,
{
    if from < s.len() && s[from] != '.' {
        lemma_major_len_bounds(s, from + 1);
    }
}

/// The value of a digit run never shrinks as the run extends.
proof fn lemma_digits_value_monotone(s: Seq<char>, from: int, mid: int, to: int)
    requires
        from <= mid <= to,
        forall|x: int| from <= x < to ==> is_digit_char(#[trigger] s[x]),
    ensures
        digits_value(s, from, to) >= digits_value(s, from, mid),
    decreases to - mid,
{
    lemma_digits_value_nonneg(s, from, mid);
    if mid < to {
        lemma_digits_value_nonneg(s, from, to - 1);
        lemma_digits_value_monotone(s, from, mid, to - 1);
        assert(is_digit_char(s[to - 1]));
    }
}

/// The value of a digit run is never negative.
proof fn lemma_digits_value_nonneg(s: Seq<char>, from: int, to: int)
    requires
        forall|x: int| from <= x < to ==> is_digit_char(#[trigger] s[x]),
    ensures
        digits_value(s, from, to) >= 0,
    decreases to - from,
{
    if to > from {
        lemma_digits_value_nonneg(s, from, to - 1);
        assert(is_digit_char(s[to - 1]));
    }
}

/// A scan over `0` characters pins down [`zeros_end`].
proof fn lemma_zeros_end_scan(s: Seq<char>, from: int, z: int, to: int)
    requires
        0 <= from <= z <= to <= s.len(),
        forall|y: int| from <= y < z ==> s[y] == '0',
        z < to ==> s[z] != '0',
    ensures
        zeros_end(s, from, to) == z,
    decreases z - from,
{
    if from < z {
        lemma_zeros_end_scan(s, from + 1, z, to);
    }
}

/// The reserved namespace root.
pub open spec fn ns_root() -> Seq<char> {
    seq!['m', 'l', 'i', 'r']
}

/// Index of the first `::` separator at or after `from`, or the length of
/// the string when there is none.
pub open spec fn first_sep_from(s: Seq<char>, from: int) -> int
    decreases s.len() - from,
{
    if from < 0 || from + 2 > s.len() {
        s.len() as int
    } else if s[from] == ':' && s[from + 1] == ':' {
        from
    } else {
        first_sep_from(s, from + 1)
    }
}

/// `s` with leading and trailing whitespace removed.
pub open spec fn trimmed_of(s: Seq<char>) -> Seq<char> {
    let lo = space_run_from(s, 0);
    let hi = space_run_back(s, s.len() as int);
    if lo <= hi {
        s.subrange(lo, hi)
    } else {
        Seq::empty()
    }
}

/// The trimmed namespace starts or ends with the separator.
pub open spec fn ns_edge_sep(t: Seq<char>) -> bool {
    t.len() >= 2 && ((t[0] == ':' && t[1] == ':') || (t[t.len() - 2] == ':' && t[t.len() - 1]
        == ':'))
}

/// Diagnostic for a namespace with a leading or trailing separator.
pub open spec fn msg_edge_sep(ns: Seq<char>) -> Seq<char> {
    "cpp_namespace '"@ + ns + "' has invalid leading or trailing '::'."@
}

/// Diagnostic for a single-level namespace.
pub open spec fn msg_single_level(ns: Seq<char>, t: Seq<char>) -> Seq<char> {
    "cpp_namespace '"@ + ns + "' must use the 'mlir::namespace' pattern. Did you mean 'mlir::"@
        + t + "'?"@
}

/// Diagnostic for a namespace that does not fit the two-level pattern
/// under the reserved root.
pub open spec fn msg_too_deep(ns: Seq<char>) -> Seq<char> {
    "cpp_namespace '"@ + ns + "' has more than 2 levels. Only 'mlir::namespace' pattern is supported."@
}

/// Full specification of namespace resolution: given the raw namespace
/// text `ns`, the result `r` is the resolved subdirectory, no
/// subdirectory for blank input, or the exact configuration error.
pub open spec fn resolves_to(ns: Seq<char>, r: Result<Option<String>, Error>) -> bool {
    let t = trimmed_of(ns);
    let k = first_sep_from(t, 0);
    if t.len() == 0 {
        r matches Ok(o) && o is None
    } else if ns_edge_sep(t) {
        r matches Err(e) && e matches Error::InvalidNamespace(m) && m@ == msg_edge_sep(ns)
    } else if k == t.len() {
        r matches Err(e) && e matches Error::InvalidNamespace(m) && m@ == msg_single_level(
            ns,
            t,
        )
    } else if first_sep_from(t, k + 2) < t.len() {
        r matches Err(e) && e matches Error::InvalidNamespace(m) && m@ == msg_too_deep(ns)
    } else if k == 4 && lit_at(t, 0, ns_root()) {
        r matches Ok(o) && o matches Some(d) && d@ == t.subrange(6, t.len() as int)
    } else {
        r matches Err(e) && e matches Error::InvalidNamespace(m) && m@ == msg_too_deep(ns)
    }
}

/// The diagnostic of an invalid namespace, or nothing when the
/// namespace resolves.
pub open spec fn ns_error_of(ns: Seq<char>) -> Option<Seq<char>> {
    let t = trimmed_of(ns);
    let k = first_sep_from(t, 0);
    if t.len() == 0 {
        None::<Seq<char>>
    } else if ns_edge_sep(t) {
        Some(msg_edge_sep(ns))
    } else if k == t.len() {
        Some(msg_single_level(ns, t))
    } else if first_sep_from(t, k + 2) < t.len() {
        Some(msg_too_deep(ns))
    } else if k == 4 && lit_at(t, 0, ns_root()) {
        None::<Seq<char>>
    } else {
        Some(msg_too_deep(ns))
    }
}

/// The subdirectory a namespace resolves to, or nothing for blank input.
pub open spec fn ns_subdir_of(ns: Seq<char>) -> Option<Seq<char>> {
    let t = trimmed_of(ns);
    let k = first_sep_from(t, 0);
    if t.len() == 0 {
        None::<Seq<char>>
    } else if !ns_edge_sep(t) && k < t.len() && first_sep_from(t, k + 2) == t.len() && k == 4
        && lit_at(t, 0, ns_root()) {
        Some(t.subrange(6, t.len() as int))
    } else {
        None::<Seq<char>>
    }
}

/// The namespace diagnostic of a whole configuration.
pub open spec fn builder_ns_error(b: DialectBuilder) -> Option<Seq<char>> {
    match b.cpp_namespace {
        Some(ns) => ns_error_of(ns@),
        None => None::<Seq<char>>,
    }
}

/// The resolved subdirectory of a whole configuration.
pub open spec fn builder_subdir(b: DialectBuilder) -> Option<Seq<char>> {
    match b.cpp_namespace {
        Some(ns) => ns_subdir_of(ns@),
        None => None::<Seq<char>>,
    }
}

/// The namespace the shim is wrapped in: the validated two-level
/// namespace, defaulted to `mlir::<name>` when none is configured.
pub open spec fn shim_namespace(name: Seq<char>, sub: Option<Seq<char>>) -> Seq<char> {
    match sub {
        Some(d) => "mlir::"@ + d,
        None => "mlir::"@ + name,
    }
}

/// The directory the generated fragments are written to.
pub open spec fn inc_dir_of(outdir: Seq<char>, sub: Option<Seq<char>>) -> Seq<char> {
    match sub {
        Some(d) => outdir + "/inc"@ + "/"@ + d,
        None => outdir + "/inc"@,
    }
}

/// Two results that both satisfy the resolution specification carry the
/// same payloads.
pub open spec fn same_resolution(
    r1: Result<Option<String>, Error>,
    r2: Result<Option<String>, Error>,
) -> bool {
    match (r1, r2) {
        (Ok(o1), Ok(o2)) => match (o1, o2) {
            (None, None) => true,
            (Some(d1), Some(d2)) => d1@ == d2@,
            _ => false,
        },
        (Err(e1), Err(e2)) => match (e1, e2) {
            (Error::InvalidNamespace(m1), Error::InvalidNamespace(m2)) => m1@ == m2@,
            _ => false,
        },
        _ => false,
    }
}

/// Law: namespace resolution is deterministic. Any two results that meet
/// the resolver's contract on the same namespace text agree, payload for
/// payload — resolving twice yields the same outcome.
pub proof fn lemma_namespace_resolution_deterministic(
    ns: Seq<char>,
    r1: Result<Option<String>, Error>,
    r2: Result<Option<String>, Error>,
)
    requires
        resolves_to(ns, r1),
        resolves_to(ns, r2),
    ensures
        same_resolution(r1, r2),
{
}

/// The first separator stands between `from` and the end.
pub proof fn lemma_first_sep_bounds(s: Seq<char>, from: int)
    requires
        0 <= from <= s.len(),
    ensures
        from <= first_sep_from(s, from) <= s.len(),
        first_sep_from(s, from) < s.len() ==> first_sep_from(s, from) + 2 <= s.len(),
    decreases s.len() - from,
{
    if from + 2 <= s.len() && !(s[from] == ':' && s[from + 1] == ':') {
        lemma_first_sep_bounds(s, from + 1);
    }
}

/// Find the first `::` separator at or after `from`.
fn find_first_sep(v: &Vec<char>, from: usize) -> (r: usize)
    requires
        from <= v.len(),
    ensures
        r == first_sep_from(v@, from as int),
        from <= r <= v.len(),
        r < v.len() ==> r + 2 <= v.len() && v@[r as int] == ':' && v@[r + 1] == ':',
{
    let n = v.len();
    let mut k = from;
    while n - k >= 2
        invariant
            from <= k <= n,
            n == v.len(),
            first_sep_from(v@, from as int) == first_sep_from(v@, k as int),
        decreases n - k,
    {
        if v[k] == ':' && v[k + 1] == ':' {
            return k;
        }
        k = k + 1;
    }
    n
}

/// Builder for compiling and registering a custom MLIR dialect.
///
/// The builder accumulates the full configuration — dialect name,
/// namespace, TableGen inputs, search directories, extra C++ sources and
/// the output directory — and every derived decision (classification,
/// namespace resolution, invocation planning, synthesis) is a pure
/// function of that configuration.
#[derive(Debug, Clone)]
pub struct DialectBuilder {
    /// The dialect name (e.g. `toy`).
    pub name: String,
    /// The C++ namespace for the dialect (e.g. `mlir::toy`).
    pub cpp_namespace: Option<String>,
    /// TableGen files to process.
    pub td_files: Vec<String>,
    /// Search directories for TableGen file resolution.
    pub include_dirs: Vec<String>,
    /// Additional C++ source files to compile.
    pub cpp_files: Vec<String>,
    /// Output directory override.
    pub output_dir: Option<String>,
}

impl DialectBuilder {
    /// Create a new dialect builder with the given dialect name.
    ///
    /// The name should match the dialect name in the TableGen definition.
    pub fn new(name: &str) -> (r: Self)
        ensures
            r.name@ == name@,
            r.cpp_namespace is None,
            r.td_files@.len() == 0,
            r.include_dirs@.len() == 0,
            r.cpp_files@.len() == 0,
            r.output_dir is None,
    {
        DialectBuilder {
            name: name.to_owned(),
            cpp_namespace: None,
            td_files: Vec::new(),
            include_dirs: Vec::new(),
            cpp_files: Vec::new(),
            output_dir: None,
        }
    }

    /// Set the C++ namespace for the dialect.
    ///
    /// The namespace must follow the `mlir::name` pattern (e.g.
    /// `mlir::bril`). It determines both the C++ namespace wrapping and
    /// the subdirectory for generated `.inc` files. If it is not set, the
    /// namespace defaults to `mlir::<name>` and the files are placed
    /// without a subdirectory.
    pub fn cpp_namespace(self, namespace: &str) -> (r: Self)
        ensures
            r.cpp_namespace matches Some(ns) && ns@ == namespace@,
            r.name == self.name,
            r.td_files == self.td_files,
            r.include_dirs == self.include_dirs,
            r.cpp_files == self.cpp_files,
            r.output_dir == self.output_dir,
    {
        let mut b = self;
        b.cpp_namespace = Some(namespace.to_owned());
        b
    }

    /// Add a TableGen file to process.
    pub fn td_file(self, path: &str) -> (r: Self)
        ensures
            r.td_files.deep_view() == self.td_files.deep_view().push(path@),
            r.name == self.name,
            r.cpp_namespace == self.cpp_namespace,
            r.include_dirs == self.include_dirs,
            r.cpp_files == self.cpp_files,
            r.output_dir == self.output_dir,
    {
        let mut b = self;
        b.td_files.push(path.to_owned());
        proof {
            assert(b.td_files.deep_view() =~= self.td_files.deep_view().push(path@));
        }
        b
    }

    /// Add multiple TableGen files to process.
    pub fn td_files(self, paths: &[&str]) -> (r: Self)
        ensures
            r.td_files.deep_view() == self.td_files.deep_view() + paths.deep_view(),
            r.name == self.name,
            r.cpp_namespace == self.cpp_namespace,
            r.include_dirs == self.include_dirs,
            r.cpp_files == self.cpp_files,
            r.output_dir == self.output_dir,
    {
        let mut b = self;
        let mut k: usize = 0;
        while k < paths.len()
            invariant
                k <= paths.len(),
                b.td_files.deep_view() =~= self.td_files.deep_view()
                    + paths.deep_view().subrange(0, k as int),
                b.name == self.name,
                b.cpp_namespace == self.cpp_namespace,
                b.include_dirs == self.include_dirs,
                b.cpp_files == self.cpp_files,
                b.output_dir == self.output_dir,
            decreases paths.len() - k,
        {
            let ghost pre = b.td_files.deep_view();
            let ghost prelen = b.td_files@.len();
            b.td_files.push(paths[k].to_owned());
            proof {
                assert(b.td_files@.len() == prelen + 1);
                assert(forall|x: int|
                    0 <= x < prelen ==> b.td_files.deep_view()[x] == #[trigger] pre[x]);
                assert(b.td_files.deep_view()[prelen as int] == paths@[k as int]@);
                assert(b.td_files.deep_view() =~= pre.push(paths@[k as int]@));
                assert(paths.deep_view()[k as int] == paths@[k as int]@);
            }
            k = k + 1;
            proof {
                assert(b.td_files.deep_view() =~= self.td_files.deep_view()
                    + paths.deep_view().subrange(0, k as int));
            }
        }
        proof {
            assert(paths.deep_view().subrange(0, paths@.len() as int) =~= paths.deep_view());
        }
        b
    }

    /// Add a search directory for TableGen processing.
    pub fn include_dir(self, path: &str) -> (r: Self)
        ensures
            r.include_dirs.deep_view() == self.include_dirs.deep_view().push(path@),
            r.name == self.name,
            r.cpp_namespace == self.cpp_namespace,
            r.td_files == self.td_files,
            r.cpp_files == self.cpp_files,
            r.output_dir == self.output_dir,
    {
        let mut b = self;
        b.include_dirs.push(path.to_owned());
        proof {
            assert(b.include_dirs.deep_view() =~= self.include_dirs.deep_view().push(path@));
        }
        b
    }

    /// Add multiple search directories for TableGen processing.
    pub fn include_dirs(self, paths: &[&str]) -> (r: Self)
        ensures
            r.include_dirs.deep_view() == self.include_dirs.deep_view() + paths.deep_view(),
            r.name == self.name,
            r.cpp_namespace == self.cpp_namespace,
            r.td_files == self.td_files,
            r.cpp_files == self.cpp_files,
            r.output_dir == self.output_dir,
    {
        let mut b = self;
        let mut k: usize = 0;
        while k < paths.len()
            invariant
                k <= paths.len(),
                b.include_dirs.deep_view() =~= self.include_dirs.deep_view()
                    + paths.deep_view().subrange(0, k as int),
                b.name == self.name,
                b.cpp_namespace == self.cpp_namespace,
                b.td_files == self.td_files,
                b.cpp_files == self.cpp_files,
                b.output_dir == self.output_dir,
            decreases paths.len() - k,
        {
            let ghost pre = b.include_dirs.deep_view();
            let ghost prelen = b.include_dirs@.len();
            b.include_dirs.push(paths[k].to_owned());
            proof {
                assert(b.include_dirs@.len() == prelen + 1);
                assert(forall|x: int|
                    0 <= x < prelen ==> b.include_dirs.deep_view()[x] == #[trigger] pre[x]);
                assert(b.include_dirs.deep_view()[prelen as int] == paths@[k as int]@);
                assert(b.include_dirs.deep_view() =~= pre.push(paths@[k as int]@));
                assert(paths.deep_view()[k as int] == paths@[k as int]@);
            }
            k = k + 1;
            proof {
                assert(b.include_dirs.deep_view() =~= self.include_dirs.deep_view()
                    + paths.deep_view().subrange(0, k as int));
            }
        }
        proof {
            assert(paths.deep_view().subrange(0, paths@.len() as int) =~= paths.deep_view());
        }
        b
    }

    /// Add an additional C++ source file to compile.
    ///
    /// Use this for custom verifiers, canonicalizers, builders, or other
    /// C++ implementations required by the TableGen definitions.
    pub fn cpp_file(self, path: &str) -> (r: Self)
        ensures
            r.cpp_files.deep_view() == self.cpp_files.deep_view().push(path@),
            r.name == self.name,
            r.cpp_namespace == self.cpp_namespace,
            r.td_files == self.td_files,
            r.include_dirs == self.include_dirs,
            r.output_dir == self.output_dir,
    {
        let mut b = self;
        b.cpp_files.push(path.to_owned());
        proof {
            assert(b.cpp_files.deep_view() =~= self.cpp_files.deep_view().push(path@));
        }
        b
    }

    /// Add multiple additional C++ source files to compile.
    pub fn cpp_files(self, paths: &[&str]) -> (r: Self)
        ensures
            r.cpp_files.deep_view() == self.cpp_files.deep_view() + paths.deep_view(),
            r.name == self.name,
            r.cpp_namespace == self.cpp_namespace,
            r.td_files == self.td_files,
            r.include_dirs == self.include_dirs,
            r.output_dir == self.output_dir,
    {
        let mut b = self;
        let mut k: usize = 0;
        while k < paths.len()
            invariant
                k <= paths.len(),
                b.cpp_files.deep_view() =~= self.cpp_files.deep_view()
                    + paths.deep_view().subrange(0, k as int),
                b.name == self.name,
                b.cpp_namespace == self.cpp_namespace,
                b.td_files == self.td_files,
                b.include_dirs == self.include_dirs,
                b.output_dir == self.output_dir,
            decreases paths.len() - k,
        {
            let ghost pre = b.cpp_files.deep_view();
            let ghost prelen = b.cpp_files@.len();
            b.cpp_files.push(paths[k].to_owned());
            proof {
                assert(b.cpp_files@.len() == prelen + 1);
                assert(forall|x: int|
                    0 <= x < prelen ==> b.cpp_files.deep_view()[x] == #[trigger] pre[x]);
                assert(b.cpp_files.deep_view()[prelen as int] == paths@[k as int]@);
                assert(b.cpp_files.deep_view() =~= pre.push(paths@[k as int]@));
                assert(paths.deep_view()[k as int] == paths@[k as int]@);
            }
            k = k + 1;
            proof {
                assert(b.cpp_files.deep_view() =~= self.cpp_files.deep_view()
                    + paths.deep_view().subrange(0, k as int));
            }
        }
        proof {
            assert(paths.deep_view().subrange(0, paths@.len() as int) =~= paths.deep_view());
        }
        b
    }

    /// Set the output directory for generated files.
    ///
    /// If it is not set, the caller falls back to the ambient
    /// build-output directory.
    pub fn output_dir(self, path: &str) -> (r: Self)
        ensures
            r.output_dir matches Some(d) && d@ == path@,
            r.name == self.name,
            r.cpp_namespace == self.cpp_namespace,
            r.td_files == self.td_files,
            r.include_dirs == self.include_dirs,
            r.cpp_files == self.cpp_files,
    {
        let mut b = self;
        b.output_dir = Some(path.to_owned());
        b
    }

    /// Choose the output directory: the configured override wins, then
    /// the ambient build-output directory; the absence of both is a
    /// configuration error.
    ///
    /// The ambient value is a fact about the caller's environment, so
    /// the caller reads it and passes it in.
    pub fn resolve_output_dir(&self, ambient: Option<&str>) -> (r: Result<String, Error>)
        ensures
            self.output_dir matches Some(d) ==> (r matches Ok(o) && o@ == d@),
            self.output_dir is None ==> (match ambient {
                Some(a) => r matches Ok(o) && o@ == a@,
                None => r matches Err(e) && e is MissingOutDir,
            }),
    {
        match &self.output_dir {
            Some(d) => Ok(d.clone()),
            None => match ambient {
                Some(a) => Ok(a.to_owned()),
                None => Err(Error::MissingOutDir),
            },
        }
    }

    /// Choose the LLVM installation prefix from what discovery found:
    /// the version-specific override wins over the probed prefix, the
    /// generic override is the fallback, and finding none of them is the
    /// discovery error.
    ///
    /// Probing the toolchain and reading the overrides touch the
    /// environment, so the caller performs them and passes the outcomes
    /// in.
    pub fn resolve_llvm_prefix(
        probed_prefix: Option<&str>,
        version_override: Option<&str>,
        generic_override: Option<&str>,
    ) -> (r: Result<String, Error>)
        ensures
            probed_prefix matches Some(p) ==> (match version_override {
                Some(o) => r matches Ok(q) && q@ == o@,
                None => r matches Ok(q) && q@ == p@,
            }),
            probed_prefix is None ==> (match generic_override {
                Some(g) => r matches Ok(q) && q@ == g@,
                None => r matches Err(e) && e is LlvmNotFound,
            }),
    {
        match probed_prefix {
            Some(p) => match version_override {
                Some(o) => Ok(o.to_owned()),
                None => Ok(p.to_owned()),
            },
            None => match generic_override {
                Some(g) => Ok(g.to_owned()),
                None => Err(Error::LlvmNotFound),
            },
        }
    }

    /// Extract the output subdirectory from the configured namespace.
    ///
    /// A blank or absent namespace yields no subdirectory; `mlir::<x>`
    /// yields `<x>`; anything else is a configuration error that names
    /// the offending value.
    pub fn namespace_subdir(&self) -> (r: Result<Option<String>, Error>)
        ensures
            match self.cpp_namespace {
                None => r matches Ok(o) && o is None,
                Some(ns) => resolves_to(ns@, r),
            },
    {
        let ns: &String = match &self.cpp_namespace {
            None => {
                return Ok(None);
            },
            Some(ns) => ns,
        };
        let v = to_char_vec(ns.as_str());
        let n = v.len();
        let lo = scan_space_end(&v, 0);
        let mut hi = n;
        while hi > lo && is_space(v[hi - 1])
            invariant
                lo <= hi <= n,
                n == v.len(),
                lo <= v.len(),
                all_space(v@, hi as int, n as int),
            decreases hi,
        {
            hi = hi - 1;
        }
        proof {
            lemma_space_run_from_agrees(v@, 0, lo as int);
            if lo == hi {
                // nothing but whitespace: the trimmed text is empty
                if lo < n {
                    assert(!is_space_char(v@[lo as int]));
                    assert(is_space_char(v@[hi as int]));
                }
                lemma_space_run_back_agrees(v@, n as int, 0);
                assert(trimmed_of(ns@).len() == 0);
            } else {
                assert(!is_space_char(v@[hi - 1]));
                lemma_space_run_back_agrees(v@, n as int, hi as int);
                assert(trimmed_of(ns@) =~= v@.subrange(lo as int, hi as int));
            }
        }
        if lo == hi {
            return Ok(None);
        }
        let t_str = ns.as_str().substring_char(lo, hi);
        let tv = to_char_vec(t_str);
        let tn = tv.len();
        proof {
            assert(tv@ == trimmed_of(ns@));
            assert(tn == trimmed_of(ns@).len());
        }
        let mut edge = false;
        if tn >= 2 {
            edge = (tv[0] == ':' && tv[1] == ':') || (tv[tn - 2] == ':' && tv[tn - 1] == ':');
        }
        if edge {
            let mut m = "cpp_namespace '".to_owned();
            m.append(ns.as_str());
            m.append("' has invalid leading or trailing '::'.");
            return Err(Error::InvalidNamespace(m));
        }
        let k = find_first_sep(&tv, 0);
        if k == tn {
            let mut m = "cpp_namespace '".to_owned();
            m.append(ns.as_str());
            m.append("' must use the 'mlir::namespace' pattern. Did you mean 'mlir::");
            m.append(t_str);
            m.append("'?");
            return Err(Error::InvalidNamespace(m));
        }
        let k2 = find_first_sep(&tv, k + 2);
        if k2 < tn {
            let mut m = "cpp_namespace '".to_owned();
            m.append(ns.as_str());
            m.append("' has more than 2 levels. Only 'mlir::namespace' pattern is supported.");
            return Err(Error::InvalidNamespace(m));
        }
        if k == 4 && tv[0] == 'm' && tv[1] == 'l' && tv[2] == 'i' && tv[3] == 'r' {
            proof {
                assert(lit_at(tv@, 0, ns_root())) by {
                    assert forall|x: int| 0 <= x < ns_root().len() implies tv@[x]
                        == #[trigger] ns_root()[x] by {
                        if x == 0 {
                        } else if x == 1 {
                        } else if x == 2 {
                        } else {
                            assert(x == 3);
                        }
                    }
                }
            }
            let d = t_str.substring_char(k + 2, tn).to_owned();
            proof {
                assert(d@ =~= trimmed_of(ns@).subrange(6, trimmed_of(ns@).len() as int));
            }
            return Ok(Some(d));
        }
        let mut m = "cpp_namespace '".to_owned();
        m.append(ns.as_str());
        m.append("' has more than 2 levels. Only 'mlir::namespace' pattern is supported.");
        proof {
            if lit_at(tv@, 0, ns_root()) {
                assert(tv@[0] == 'm' && tv@[1] == 'l' && tv@[2] == 'i' && tv@[3] == 'r');
            }
        }
        Err(Error::InvalidNamespace(m))
    }
}

/// Everything the build decides before any process runs: where the
/// fragments go, which generator invocations to make, and the two
/// synthesized sources.
#[derive(Debug)]
pub struct BuildPlan {
    /// The base fragment directory, `<output>/inc`.
    pub inc_base: String,
    /// The namespace subdirectory, when one is configured.
    pub inc_subdir: Option<String>,
    /// The directory the fragments are written to.
    pub inc_dir: String,
    /// One invocation plan per TableGen file, in input order.
    pub file_plans: Vec<tblgen::TdFilePlan>,
    /// The aggregated capability provenance.
    pub generated: tblgen::GeneratedFiles,
    /// Path of the synthesized C++ shim.
    pub cpp_file: String,
    /// Text of the synthesized C++ shim.
    pub cpp_source: String,
    /// Path of the synthesized Rust binding module.
    pub rust_file: String,
    /// Text of the synthesized Rust binding module.
    pub rust_source: String,
}

/// A per-file invocation plan is exactly what the configuration calls
/// for: the right tool, file, stem, selector, search directories and
/// generation passes.
pub open spec fn file_plan_ok(
    fp: tblgen::TdFilePlan,
    file: Seq<char>,
    text: Seq<char>,
    name: Seq<char>,
    llvm_prefix: Seq<char>,
    incs: Seq<Seq<char>>,
    incdir: Seq<char>,
) -> bool {
    &&& fp.tool@ == llvm_prefix + "/bin/mlir-tblgen"@
    &&& fp.td_file@ == file
    &&& fp.stem@ == tblgen::stem_spec(file)
    &&& fp.dialect@ == name
    &&& fp.include_dirs.deep_view() == seq![llvm_prefix + "/include"@] + incs
    &&& tblgen::runs_match(
        fp.runs@,
        tblgen::planned_runs(tblgen::classification_of(text), incdir, tblgen::stem_spec(file)),
    )
}

impl DialectBuilder {
    /// Decide the whole build from the configuration and the file texts.
    ///
    /// `texts` carries the content of each configured TableGen file, in
    /// order; reading the files, probing for the generator binary and
    /// running the planned invocations stay with the caller. Failures
    /// come in the caller-visible order: a missing generator binary,
    /// then a malformed namespace, then the first file without a usable
    /// base name.
    pub fn generation_plan(
        &self,
        texts: &Vec<String>,
        output_dir: &str,
        llvm_prefix: &str,
        tblgen_present: bool,
    ) -> (r: Result<BuildPlan, Error>)
        requires
            texts@.len() == self.td_files@.len(),
        ensures
            !tblgen_present ==> (r matches Err(e) && e matches Error::TblgenNotFound(p) && p@
                == llvm_prefix@ + "/bin/mlir-tblgen"@),
            tblgen_present ==> (match builder_ns_error(*self) {
                Some(msg) => r matches Err(e) && e matches Error::InvalidNamespace(m) && m@
                    == msg,
                None => {
                    let fdv = self.td_files.deep_view();
                    let tdv = texts.deep_view();
                    let sub = builder_subdir(*self);
                    let bad = tblgen::first_invalid_td(fdv, 0);
                    if bad < fdv.len() {
                        r matches Err(e) && e matches Error::InvalidPath(m) && m@
                            == tblgen::msg_invalid_path(fdv[bad])
                    } else {
                        r matches Ok(p) && {
                            &&& p.inc_base@ == output_dir@ + "/inc"@
                            &&& tblgen::opt_view(p.inc_subdir) == sub
                            &&& p.inc_dir@ == inc_dir_of(output_dir@, sub)
                            &&& p.file_plans@.len() == fdv.len()
                            &&& forall|i: int|
                                0 <= i < fdv.len() ==> file_plan_ok(
                                    #[trigger] p.file_plans@[i],
                                    fdv[i],
                                    tdv[i],
                                    self.name@,
                                    llvm_prefix@,
                                    self.include_dirs.deep_view(),
                                    inc_dir_of(output_dir@, sub),
                                )
                            &&& tblgen::opt_view(p.generated.dialect_stem)
                                == tblgen::cap_stem_view(fdv, tdv, tblgen::Capability::Dialect)
                            &&& tblgen::opt_view(p.generated.ops_stem) == tblgen::cap_stem_view(
                                fdv,
                                tdv,
                                tblgen::Capability::Ops,
                            )
                            &&& tblgen::opt_view(p.generated.types_stem)
                                == tblgen::cap_stem_view(fdv, tdv, tblgen::Capability::Types)
                            &&& tblgen::opt_view(p.generated.attrs_stem)
                                == tblgen::cap_stem_view(fdv, tdv, tblgen::Capability::Attrs)
                            &&& tblgen::opt_view(p.generated.enums_stem)
                                == tblgen::cap_stem_view(fdv, tdv, tblgen::Capability::Enums)
                            &&& p.generated.use_function_interface == tblgen::any_iface_view(
                                tdv,
                            )
                            &&& p.cpp_file@ == output_dir@ + "/"@ + self.name@ + "_capi.cpp"@
                            &&& p.cpp_source@ == cpp_gen::cpp_registration_spec(
                                self.name@,
                                shim_namespace(self.name@, sub),
                                p.generated,
                                sub,
                            )
                            &&& p.rust_file@ == output_dir@ + "/"@ + self.name@
                                + "_register.rs"@
                            &&& p.rust_source@ == rust_gen::rust_ffi_spec(self.name@)
                        }
                    }
                },
            }),
    {
        let runner = match tblgen::TblgenRunner::new(llvm_prefix, tblgen_present) {
            Ok(t) => t,
            Err(e) => {
                return Err(e);
            },
        };
        let inc_subdir = match self.namespace_subdir() {
            Ok(o) => o,
            Err(e) => {
                proof {
                    match &self.cpp_namespace {
                        Some(ns) => {
                            assert(ns_error_of(ns@) is Some);
                        },
                        None => {},
                    }
                }
                return Err(e);
            },
        };
        proof {
            match &self.cpp_namespace {
                Some(ns) => {
                    lemma_first_sep_bounds(trimmed_of(ns@), 0);
                    if first_sep_from(trimmed_of(ns@), 0) < trimmed_of(ns@).len() {
                        lemma_first_sep_bounds(
                            trimmed_of(ns@),
                            first_sep_from(trimmed_of(ns@), 0) + 2,
                        );
                    }
                    assert(ns_error_of(ns@) is None);
                    assert(tblgen::opt_view(inc_subdir) == ns_subdir_of(ns@));
                },
                None => {},
            }
        }
        let ghost sub = builder_subdir(*self);
        let mut inc_base = output_dir.to_owned();
        inc_base.append("/inc");
        let inc_dir = match &inc_subdir {
            Some(d) => {
                let mut s = inc_base.clone();
                s.append("/");
                s.append(d.as_str());
                s
            },
            None => inc_base.clone(),
        };
        proof {
            assert(inc_dir@ == inc_dir_of(output_dir@, sub));
        }
        let ghost fdv = self.td_files.deep_view();
        let ghost tdv = texts.deep_view();
        let mut entries: Vec<(String, tblgen::TdFileContents)> = Vec::new();
        let mut file_plans: Vec<tblgen::TdFilePlan> = Vec::new();
        let mut i: usize = 0;
        while i < self.td_files.len()
            invariant
                i <= self.td_files@.len(),
                texts@.len() == self.td_files@.len(),
                fdv == self.td_files.deep_view(),
                tdv == texts.deep_view(),
                sub == builder_subdir(*self),
                tblgen_present,
                builder_ns_error(*self) is None,
                runner.tblgen_path@ == llvm_prefix@ + "/bin/mlir-tblgen"@,
                runner.llvm_include@ == llvm_prefix@ + "/include"@,
                inc_base@ == output_dir@ + "/inc"@,
                inc_dir@ == inc_dir_of(output_dir@, sub),
                entries@.len() == i as int,
                file_plans@.len() == i as int,
                forall|j: int| 0 <= j < i ==> tblgen::valid_td_path(#[trigger] fdv[j]),
                forall|j: int|
                    0 <= j < i ==> (#[trigger] entries@[j]).0@ == tblgen::stem_spec(fdv[j])
                        && entries@[j].1 == tblgen::classification_of(tdv[j]),
                forall|j: int|
                    0 <= j < i ==> file_plan_ok(
                        #[trigger] file_plans@[j],
                        fdv[j],
                        tdv[j],
                        self.name@,
                        llvm_prefix@,
                        self.include_dirs.deep_view(),
                        inc_dir_of(output_dir@, sub),
                    ),
            decreases self.td_files@.len() - i,
        {
            let text = &texts[i];
            let contents = tblgen::detect_td_contents(text.as_str());
            proof {
                assert(text@ == tdv[i as int]);
                assert(self.td_files@[i as int]@ == fdv[i as int]);
            }
            let td: &String = &self.td_files[i];
            let plan = match runner.generate_for_file(
                td.as_str(),
                &self.include_dirs,
                inc_dir.as_str(),
                self.name.as_str(),
                &contents,
            ) {
                Ok(p) => p,
                Err(e) => {
                    proof {
                        assert(!tblgen::valid_td_path(fdv[i as int]));
                        tblgen::lemma_first_invalid_td(fdv, 0, i as int);
                    }
                    return Err(e);
                },
            };
            proof {
                assert(tblgen::valid_td_path(fdv[i as int]));
                // the search-directory list viewed element by element
                assert(plan.include_dirs.deep_view() =~= seq![llvm_prefix@ + "/include"@]
                    + self.include_dirs.deep_view()) by {
                    assert(plan.include_dirs@ == seq![runner.llvm_include]
                        + self.include_dirs@);
                    assert forall|x: int|
                        0 <= x < plan.include_dirs@.len() implies plan.include_dirs.deep_view()[x]
                        == (seq![llvm_prefix@ + "/include"@]
                        + self.include_dirs.deep_view())[x] by {
                        if x == 0 {
                            assert(plan.include_dirs@[0] == runner.llvm_include);
                        } else {
                            assert(plan.include_dirs@[x] == self.include_dirs@[x - 1]);
                        }
                    }
                }
                assert(file_plan_ok(
                    plan,
                    fdv[i as int],
                    tdv[i as int],
                    self.name@,
                    llvm_prefix@,
                    self.include_dirs.deep_view(),
                    inc_dir_of(output_dir@, sub),
                ));
            }
            entries.push((plan.stem.clone(), contents));
            file_plans.push(plan);
            i = i + 1;
        }
        let generated = tblgen::GeneratedFiles::aggregate(&entries);
        proof {
            tblgen::lemma_first_invalid_td(fdv, 0, fdv.len() as int);
            tblgen::lemma_cap_stem_view(entries@, fdv, tdv, tblgen::Capability::Dialect);
            tblgen::lemma_cap_stem_view(entries@, fdv, tdv, tblgen::Capability::Ops);
            tblgen::lemma_cap_stem_view(entries@, fdv, tdv, tblgen::Capability::Types);
            tblgen::lemma_cap_stem_view(entries@, fdv, tdv, tblgen::Capability::Attrs);
            tblgen::lemma_cap_stem_view(entries@, fdv, tdv, tblgen::Capability::Enums);
            tblgen::lemma_any_iface_view(entries@, tdv);
        }
        let mut ns_text = "mlir::".to_owned();
        match &inc_subdir {
            Some(d) => ns_text.append(d.as_str()),
            None => ns_text.append(self.name.as_str()),
        }
        proof {
            assert(ns_text@ == shim_namespace(self.name@, sub));
        }
        let sub_ref: Option<&str> = match &inc_subdir {
            Some(d) => Some(d.as_str()),
            None => None,
        };
        proof {
            assert(sub_ref.deep_view() == sub);
        }
        let cpp_source = cpp_gen::generate_cpp_registration(
            self.name.as_str(),
            ns_text.as_str(),
            &generated,
            sub_ref,
        );
        let rust_source = rust_gen::generate_rust_ffi(self.name.as_str());
        let mut cpp_file = output_dir.to_owned();
        cpp_file.append("/");
        cpp_file.append(self.name.as_str());
        cpp_file.append("_capi.cpp");
        let mut rust_file = output_dir.to_owned();
        rust_file.append("/");
        rust_file.append(self.name.as_str());
        rust_file.append("_register.rs");
        Ok(
            BuildPlan {
                inc_base,
                inc_subdir,
                inc_dir,
                file_plans,
                generated,
                cpp_file,
                cpp_source,
                rust_file,
                rust_source,
            },
        )
    }
}

} // verus!

