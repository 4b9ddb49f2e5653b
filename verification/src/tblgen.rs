//! TableGen file classification and mlir-tblgen invocation planning.
//!
//! The classifier decides, from the raw text of a definition file, which
//! entity kinds the file actually defines. A concrete definition is a
//! `def` item whose right-hand side derives (directly or through a locally
//! named template) from a reserved base form; a `class` item that merely
//! declares such a template does not count. Whitespace is the full
//! Unicode White_Space set; defined names are modelled as ASCII
//! identifiers (see [`crate::scan::is_word_char`]).

use vstd::prelude::*;
use vstd::string::StrSliceExecFns;
use vstd::string::StringExecFns;

use crate::error::Error;
use crate::scan::{
    all_space, all_word, check_lit_at, contains_lit, has_lit, is_space_char, is_word_char,
    lit_at, scan_space_end, scan_word_end, to_char_vec,
};

verus! {

/// The keyword `def` stands at position `i`.
pub open spec fn def_kw_at(s: Seq<char>, i: int) -> bool {
    &&& 0 <= i
    &&& i + 3 <= s.len()
    &&& s[i] == 'd'
    &&& s[i + 1] == 'e'
    &&& s[i + 2] == 'f'
}

/// One decomposition of `def <name> :` starting at `i`: whitespace runs
/// over `(i+3, a)`, the defined name over `[a, b)`, optional whitespace
/// over `[b, c)`, the colon stands at `c`, and the right-hand side begins
/// at `j` after optional whitespace.
pub open spec fn def_anchor_parts(s: Seq<char>, i: int, a: int, b: int, c: int, j: int) -> bool {
    &&& def_kw_at(s, i)
    &&& i + 3 < a
    &&& all_space(s, i + 3, a)
    &&& a < b
    &&& all_word(s, a, b)
    &&& b <= c < s.len()
    &&& all_space(s, b, c)
    &&& s[c] == ':'
    &&& c < j <= s.len()
    &&& all_space(s, c + 1, j)
}

/// `def <name> :` stands at `i` and its right-hand side begins at `j`.
pub open spec fn def_anchor_at(s: Seq<char>, i: int, j: int) -> bool {
    exists|a: int, b: int, c: int| def_anchor_parts(s, i, a, b, c, j)
}

/// The reserved namespace-root base form.
pub open spec fn dialect_base() -> Seq<char> {
    seq!['D', 'i', 'a', 'l', 'e', 'c', 't']
}

/// The reserved operation base-form suffix.
pub open spec fn op_base() -> Seq<char> {
    seq!['O', 'p']
}

/// The custom type base-form suffix.
pub open spec fn type_base() -> Seq<char> {
    seq!['T', 'y', 'p', 'e']
}

/// The reserved type-record base form applied directly.
pub open spec fn typedef_base() -> Seq<char> {
    seq!['T', 'y', 'p', 'e', 'D', 'e', 'f', '<']
}

/// The custom attribute base-form suffix.
pub open spec fn attr_base() -> Seq<char> {
    seq!['A', 't', 't', 'r']
}

/// The reserved attribute-record base form applied directly.
pub open spec fn attrdef_base() -> Seq<char> {
    seq!['A', 't', 't', 'r', 'D', 'e', 'f', '<']
}

/// The reserved enum-attribute tokens.
pub open spec fn enum_attr_tok() -> Seq<char> {
    seq!['E', 'n', 'u', 'm', 'A', 't', 't', 'r']
}

/// The integer enum-attribute token.
pub open spec fn int_enum_attr_tok() -> Seq<char> {
    seq!['I', 'n', 't'] + enum_attr_tok()
}

/// The bit enum-attribute token.
pub open spec fn bit_enum_attr_tok() -> Seq<char> {
    seq!['B', 'i', 't'] + enum_attr_tok()
}

/// The function-interface trait token.
pub open spec fn function_interface_tok() -> Seq<char> {
    seq![
        'F', 'u', 'n', 'c', 't', 'i', 'o', 'n', 'O', 'p', 'I', 'n', 't', 'e', 'r', 'f', 'a',
        'c', 'e',
    ]
}

/// Right-hand side `Dialect {` (with optional whitespace before the
/// brace) stands at `j`.
pub open spec fn dialect_rhs_at(s: Seq<char>, j: int) -> bool {
    exists|k: int|
        {
            &&& lit_at(s, j, dialect_base())
            &&& j + 7 <= k < s.len()
            &&& all_space(s, j + 7, k)
            &&& s[k] == '{'
        }
}

/// Right-hand side `<template name ending in kw><` stands at `j`: a base
/// form `kw<` applied directly or through a locally named template such
/// as `Foo_Op<`.
pub open spec fn suffix_lt_rhs_at(s: Seq<char>, j: int, kw: Seq<char>) -> bool {
    exists|m: int|
        {
            &&& j <= m
            &&& all_word(s, j, m)
            &&& lit_at(s, m, kw)
            &&& m + kw.len() < s.len()
            &&& s[m + kw.len()] == '<'
        }
}

/// The text holds a concrete namespace-root definition.
pub open spec fn has_dialect_def(s: Seq<char>) -> bool {
    exists|i: int, j: int| #[trigger] def_anchor_at(s, i, j) && dialect_rhs_at(s, j)
}

/// The text holds a concrete operation definition.
pub open spec fn has_op_def(s: Seq<char>) -> bool {
    exists|i: int, j: int| #[trigger] def_anchor_at(s, i, j) && suffix_lt_rhs_at(s, j, op_base())
}

/// The text holds a concrete type-record definition.
pub open spec fn has_type_def(s: Seq<char>) -> bool {
    exists|i: int, j: int|
        #[trigger] def_anchor_at(s, i, j) && (suffix_lt_rhs_at(s, j, type_base()) || lit_at(
            s,
            j,
            typedef_base(),
        ))
}

/// The text holds a concrete attribute-record definition.
pub open spec fn has_attr_def(s: Seq<char>) -> bool {
    exists|i: int, j: int|
        #[trigger] def_anchor_at(s, i, j) && (suffix_lt_rhs_at(s, j, attr_base()) || lit_at(
            s,
            j,
            attrdef_base(),
        ))
}

/// The text references one of the reserved enum-attribute tokens.
pub open spec fn has_enum_marker(s: Seq<char>) -> bool {
    ||| contains_lit(s, enum_attr_tok())
    ||| contains_lit(s, int_enum_attr_tok())
    ||| contains_lit(s, bit_enum_attr_tok())
}

/// The text references the function-interface trait.
pub open spec fn has_function_interface_ref(s: Seq<char>) -> bool {
    contains_lit(s, function_interface_tok())
}

/// Law: only `def` items count. Every recognized dialect, operation,
/// type or attribute definition anchors on the `def` keyword, so a text
/// without it — for instance one holding only `class` template
/// declarations such as `class Foo_Op<...> : Op<...>` — classifies with
/// all four definition flags false.
pub proof fn lemma_definitions_anchor_on_def(s: Seq<char>)
    requires
        forall|i: int| !#[trigger] def_kw_at(s, i),
    ensures
        !has_dialect_def(s),
        !has_op_def(s),
        !has_type_def(s),
        !has_attr_def(s),
{
    assert forall|i: int, j: int| !#[trigger] def_anchor_at(s, i, j) by {
        if def_anchor_at(s, i, j) {
            let (a, b, c) = choose|a: int, b: int, c: int| def_anchor_parts(s, i, a, b, c, j);
            assert(def_kw_at(s, i));
        }
    }
}

/// Two decompositions of the same `def` anchor agree on every boundary.
proof fn lemma_def_anchor_parts_unique(
    s: Seq<char>,
    i: int,
    a1: int,
    b1: int,
    c1: int,
    j1: int,
    a2: int,
    b2: int,
    c2: int,
    j2: int,
)
    requires
        def_anchor_parts(s, i, a1, b1, c1, j1),
        def_anchor_parts(s, i, a2, b2, c2, j2),
    ensures
        a1 == a2,
        b1 == b2,
        c1 == c2,
{
    if a1 < a2 {
        assert(is_word_char(s[a1]));
        assert(is_space_char(s[a1]));
    }
    if a2 < a1 {
        assert(is_word_char(s[a2]));
        assert(is_space_char(s[a2]));
    }
    if b1 < b2 {
        assert(is_word_char(s[b1]));
        if b1 == c1 {
            assert(s[b1] == ':');
        } else {
            assert(is_space_char(s[b1]));
        }
    }
    if b2 < b1 {
        assert(is_word_char(s[b2]));
        if b2 == c2 {
            assert(s[b2] == ':');
        } else {
            assert(is_space_char(s[b2]));
        }
    }
    if c1 < c2 {
        assert(s[c1] == ':');
        assert(is_space_char(s[c1]));
    }
    if c2 < c1 {
        assert(s[c2] == ':');
        assert(is_space_char(s[c2]));
    }
}

/// Find the right-hand side of the `def` anchor at `i`, if any.
///
/// On success the returned position is the only one where a base form can
/// stand: every other anchor end lies on whitespace.
fn find_def_anchor(v: &Vec<char>, i: usize) -> (r: Option<usize>)
    requires
        i <= v.len(),
    ensures
        match r {
            Some(j) => {
                &&& i < j <= v.len()
                &&& def_anchor_at(v@, i as int, j as int)
                &&& forall|j2: int|
                    #[trigger] def_anchor_at(v@, i as int, j2) ==> j2 <= j && (j2 < j
                        ==> is_space_char(v@[j2]))
            },
            None => forall|j2: int| !#[trigger] def_anchor_at(v@, i as int, j2),
        },
{
    let n = v.len();
    if n < 3 || i > n - 3 {
        proof {
            assert forall|j2: int| !#[trigger] def_anchor_at(v@, i as int, j2) by {
                if def_anchor_at(v@, i as int, j2) {
                    let (a, b, c) = choose|a: int, b: int, c: int|
                        def_anchor_parts(v@, i as int, a, b, c, j2);
                }
            }
        }
        return None;
    }
    if !(v[i] == 'd' && v[i + 1] == 'e' && v[i + 2] == 'f') {
        proof {
            assert forall|j2: int| !#[trigger] def_anchor_at(v@, i as int, j2) by {
                if def_anchor_at(v@, i as int, j2) {
                    let (a, b, c) = choose|a: int, b: int, c: int|
                        def_anchor_parts(v@, i as int, a, b, c, j2);
                }
            }
        }
        return None;
    }
    let a = scan_space_end(v, i + 3);
    if a == i + 3 {
        proof {
            assert forall|j2: int| !#[trigger] def_anchor_at(v@, i as int, j2) by {
                if def_anchor_at(v@, i as int, j2) {
                    let (a2, b2, c2) = choose|a2: int, b2: int, c2: int|
                        def_anchor_parts(v@, i as int, a2, b2, c2, j2);
                    assert(c2 < v@.len());
                    assert(i + 3 < v@.len());
                    assert(is_space_char(v@[i + 3]));
                }
            }
        }
        return None;
    }
    let b = scan_word_end(v, a);
    if b == a {
        proof {
            assert forall|j2: int| !#[trigger] def_anchor_at(v@, i as int, j2) by {
                if def_anchor_at(v@, i as int, j2) {
                    let (a2, b2, c2) = choose|a2: int, b2: int, c2: int|
                        def_anchor_parts(v@, i as int, a2, b2, c2, j2);
                    // the whitespace run after `def` forces a2 == a
                    if a2 < a {
                        assert(is_space_char(v@[a2]));
                        assert(is_word_char(v@[a2]));
                    }
                    if a2 > a {
                        assert(a < v@.len());
                        assert(is_space_char(v@[a as int]));
                    }
                    // then a name character must stand at a
                    assert(a2 == a);
                    assert(a < b2);
                    assert(is_word_char(v@[a as int]));
                    assert(a < v@.len());
                }
            }
        }
        return None;
    }
    let c = scan_space_end(v, b);
    if c == n || v[c] != ':' {
        proof {
            assert forall|j2: int| !#[trigger] def_anchor_at(v@, i as int, j2) by {
                if def_anchor_at(v@, i as int, j2) {
                    let (a2, b2, c2) = choose|a2: int, b2: int, c2: int|
                        def_anchor_parts(v@, i as int, a2, b2, c2, j2);
                    if a2 < a {
                        assert(is_space_char(v@[a2]));
                        assert(is_word_char(v@[a2]));
                    }
                    if a2 > a {
                        assert(is_space_char(v@[a as int]));
                    }
                    assert(a2 == a);
                    if b2 < b {
                        assert(is_word_char(v@[b2]));
                        if b2 == c2 {
                            assert(v@[b2] == ':');
                        } else {
                            assert(is_space_char(v@[b2]));
                        }
                    }
                    if b2 > b {
                        assert(b < v@.len());
                        assert(is_word_char(v@[b as int]));
                    }
                    assert(b2 == b);
                    // the colon of the decomposition must close the
                    // whitespace run that starts at b
                    if c2 < c {
                        assert(is_space_char(v@[c2]));
                        assert(v@[c2] == ':');
                    }
                    if c2 > c {
                        assert(c < v@.len());
                        assert(is_space_char(v@[c as int]));
                    }
                    assert(c2 == c);
                    assert(c < v@.len());
                    assert(v@[c as int] == ':');
                }
            }
        }
        return None;
    }
    let j = scan_space_end(v, c + 1);
    proof {
        assert(def_anchor_parts(v@, i as int, a as int, b as int, c as int, j as int));
        assert(def_anchor_at(v@, i as int, j as int));
        assert forall|j2: int| #[trigger] def_anchor_at(v@, i as int, j2) implies j2 <= j && (j2
            < j ==> is_space_char(v@[j2])) by {
            let (a2, b2, c2) = choose|a2: int, b2: int, c2: int|
                def_anchor_parts(v@, i as int, a2, b2, c2, j2);
            lemma_def_anchor_parts_unique(
                v@,
                i as int,
                a2,
                b2,
                c2,
                j2,
                a as int,
                b as int,
                c as int,
                j as int,
            );
            if j2 > j {
                assert(j < v@.len());
                assert(is_space_char(v@[j as int]));
            }
        }
    }
    Some(j)
}

/// Build the `Dialect` base-form characters.
fn dialect_base_vec() -> (r: Vec<char>)
    ensures
        r@ == dialect_base(),
{
    let mut r: Vec<char> = Vec::new();
    r.push('D');
    r.push('i');
    r.push('a');
    r.push('l');
    r.push('e');
    r.push('c');
    r.push('t');
    proof {
        assert(r@ =~= dialect_base());
    }
    r
}

/// Build the `Op` suffix characters.
fn op_base_vec() -> (r: Vec<char>)
    ensures
        r@ == op_base(),
        forall|t: int| 0 <= t < op_base().len() ==> is_word_char(#[trigger] op_base()[t]),
{
    let mut r: Vec<char> = Vec::new();
    r.push('O');
    r.push('p');
    proof {
        assert(r@ =~= op_base());
        assert forall|t: int| 0 <= t < op_base().len() implies is_word_char(
            #[trigger] op_base()[t],
        ) by {
            if t == 0 {
                assert(is_word_char('O'));
            } else {
                assert(is_word_char('p'));
            }
        }
    }
    r
}

/// Build the `Type` suffix characters.
fn type_base_vec() -> (r: Vec<char>)
    ensures
        r@ == type_base(),
        forall|t: int| 0 <= t < type_base().len() ==> is_word_char(#[trigger] type_base()[t]),
{
    let mut r: Vec<char> = Vec::new();
    r.push('T');
    r.push('y');
    r.push('p');
    r.push('e');
    proof {
        assert(r@ =~= type_base());
        assert forall|t: int| 0 <= t < type_base().len() implies is_word_char(
            #[trigger] type_base()[t],
        ) by {
            assert(is_word_char('T') && is_word_char('y') && is_word_char('p') && is_word_char(
                'e',
            ));
            if t == 0 {
            } else if t == 1 {
            } else if t == 2 {
            } else {
                assert(t == 3);
            }
        }
    }
    r
}

/// Build the `TypeDef<` base-form characters.
fn typedef_base_vec() -> (r: Vec<char>)
    ensures
        r@ == typedef_base(),
{
    let mut r: Vec<char> = Vec::new();
    r.push('T');
    r.push('y');
    r.push('p');
    r.push('e');
    r.push('D');
    r.push('e');
    r.push('f');
    r.push('<');
    proof {
        assert(r@ =~= typedef_base());
    }
    r
}

/// Build the `Attr` suffix characters.
fn attr_base_vec() -> (r: Vec<char>)
    ensures
        r@ == attr_base(),
        forall|t: int| 0 <= t < attr_base().len() ==> is_word_char(#[trigger] attr_base()[t]),
{
    let mut r: Vec<char> = Vec::new();
    r.push('A');
    r.push('t');
    r.push('t');
    r.push('r');
    proof {
        assert(r@ =~= attr_base());
        assert forall|t: int| 0 <= t < attr_base().len() implies is_word_char(
            #[trigger] attr_base()[t],
        ) by {
            assert(is_word_char('A') && is_word_char('t') && is_word_char('r'));
            if t == 0 {
            } else if t == 1 {
            } else if t == 2 {
            } else {
                assert(t == 3);
            }
        }
    }
    r
}

/// Build the `AttrDef<` base-form characters.
fn attrdef_base_vec() -> (r: Vec<char>)
    ensures
        r@ == attrdef_base(),
{
    let mut r: Vec<char> = Vec::new();
    r.push('A');
    r.push('t');
    r.push('t');
    r.push('r');
    r.push('D');
    r.push('e');
    r.push('f');
    r.push('<');
    proof {
        assert(r@ =~= attrdef_base());
    }
    r
}

/// Build the `EnumAttr` token characters.
fn enum_attr_tok_vec() -> (r: Vec<char>)
    ensures
        r@ == enum_attr_tok(),
{
    let mut r: Vec<char> = Vec::new();
    r.push('E');
    r.push('n');
    r.push('u');
    r.push('m');
    r.push('A');
    r.push('t');
    r.push('t');
    r.push('r');
    proof {
        assert(r@ =~= enum_attr_tok());
    }
    r
}

/// Build the `IntEnumAttr` token characters.
fn int_enum_attr_tok_vec() -> (r: Vec<char>)
    ensures
        r@ == int_enum_attr_tok(),
{
    let mut r: Vec<char> = Vec::new();
    r.push('I');
    r.push('n');
    r.push('t');
    r.push('E');
    r.push('n');
    r.push('u');
    r.push('m');
    r.push('A');
    r.push('t');
    r.push('t');
    r.push('r');
    proof {
        assert(r@ =~= int_enum_attr_tok());
    }
    r
}

/// Build the `BitEnumAttr` token characters.
fn bit_enum_attr_tok_vec() -> (r: Vec<char>)
    ensures
        r@ == bit_enum_attr_tok(),
{
    let mut r: Vec<char> = Vec::new();
    r.push('B');
    r.push('i');
    r.push('t');
    r.push('E');
    r.push('n');
    r.push('u');
    r.push('m');
    r.push('A');
    r.push('t');
    r.push('t');
    r.push('r');
    proof {
        assert(r@ =~= bit_enum_attr_tok());
    }
    r
}

/// Build the `FunctionOpInterface` token characters.
fn function_interface_tok_vec() -> (r: Vec<char>)
    ensures
        r@ == function_interface_tok(),
{
    let mut r: Vec<char> = Vec::new();
    r.push('F');
    r.push('u');
    r.push('n');
    r.push('c');
    r.push('t');
    r.push('i');
    r.push('o');
    r.push('n');
    r.push('O');
    r.push('p');
    r.push('I');
    r.push('n');
    r.push('t');
    r.push('e');
    r.push('r');
    r.push('f');
    r.push('a');
    r.push('c');
    r.push('e');
    proof {
        assert(r@ =~= function_interface_tok());
    }
    r
}

/// Decide whether the `Dialect {` base form stands at `j`.
fn check_dialect_rhs(v: &Vec<char>, j: usize) -> (r: bool)
    requires
        j <= v.len(),
    ensures
        r == dialect_rhs_at(v@, j as int),
{
    let base = dialect_base_vec();
    if !check_lit_at(v, j, &base) {
        return false;
    }
    let k = scan_space_end(v, j + 7);
    if k < v.len() && v[k] == '{' {
        proof {
            assert(dialect_rhs_at(v@, j as int)) by {
                assert(lit_at(v@, j as int, dialect_base()) && j + 7 <= k < v@.len()
                    && all_space(v@, j + 7, k as int) && v@[k as int] == '{');
            }
        }
        true
    } else {
        proof {
            assert(!dialect_rhs_at(v@, j as int)) by {
                if dialect_rhs_at(v@, j as int) {
                    let k2 = choose|k2: int|
                        lit_at(v@, j as int, dialect_base()) && j + 7 <= k2 < v@.len()
                            && all_space(v@, j + 7, k2) && v@[k2] == '{';
                    if k2 < k {
                        assert(is_space_char(v@[k2]));
                    }
                    if k2 > k {
                        assert(k < v@.len());
                        assert(is_space_char(v@[k as int]));
                    }
                    assert(k2 == k);
                }
            }
        }
        false
    }
}

/// Decide whether a base form `kw<`, possibly behind a locally named
/// template, stands at `j`.
fn check_suffix_lt_rhs(v: &Vec<char>, j: usize, kw: &Vec<char>) -> (r: bool)
    requires
        j <= v.len(),
        kw@.len() >= 1,
        forall|t: int| 0 <= t < kw@.len() ==> is_word_char(#[trigger] kw@[t]),
    ensures
        r == suffix_lt_rhs_at(v@, j as int, kw@),
{
    let w = scan_word_end(v, j);
    proof {
        // in every decomposition the `<` must close the identifier run
        assert forall|m: int|
            (j <= m && all_word(v@, j as int, m) && lit_at(v@, m, kw@) && m + kw@.len()
                < v@.len() && v@[m + kw@.len()] == '<') implies m + kw@.len() == w by {
            assert(all_word(v@, j as int, m + kw@.len() as int)) by {
                assert forall|t: int| j <= t < m + kw@.len() implies is_word_char(
                    #[trigger] v@[t],
                ) by {
                    if t >= m {
                        assert(v@[t] == kw@[t - m]);
                    }
                }
            }
            if m + kw@.len() < w {
                assert(is_word_char(v@[m + kw@.len()]));
            }
            if m + kw@.len() > w {
                assert(w < v@.len());
                assert(is_word_char(v@[w as int]));
                assert(!is_word_char(v@[w as int]));
            }
        }
    }
    if w == v.len() {
        return false;
    }
    if v[w] != '<' {
        return false;
    }
    if w - j < kw.len() {
        return false;
    }
    let m = w - kw.len();
    if check_lit_at(v, m, kw) {
        proof {
            assert(suffix_lt_rhs_at(v@, j as int, kw@)) by {
                assert(all_word(v@, j as int, m as int));
                assert(j <= m && all_word(v@, j as int, m as int) && lit_at(v@, m as int, kw@)
                    && m + kw@.len() < v@.len() && v@[m + kw@.len()] == '<');
            }
        }
        true
    } else {
        false
    }
}

/// A base form at the right-hand side of an anchor starts on a
/// non-whitespace character, so it can only stand where the anchor's
/// whitespace run ends.
proof fn lemma_rhs_position_forced(s: Seq<char>, i: int, j: int, j2: int)
    requires
        def_anchor_at(s, i, j),
        forall|j3: int|
            #[trigger] def_anchor_at(s, i, j3) ==> j3 <= j && (j3 < j ==> is_space_char(s[j3])),
        def_anchor_at(s, i, j2),
        0 <= j2 < s.len() ==> !is_space_char(s[j2]),
    ensures
        j2 == j,
{
    if j2 < j {
        let (a, b, c) = choose|a: int, b: int, c: int| def_anchor_parts(s, i, a, b, c, j2);
        assert(0 <= j2 < s.len());
        assert(is_space_char(s[j2]));
    }
}

/// Decide whether a concrete namespace-root definition stands at `i`.
fn match_dialect_at(v: &Vec<char>, i: usize) -> (r: bool)
    requires
        i <= v.len(),
    ensures
        r == exists|j: int| #[trigger] def_anchor_at(v@, i as int, j) && dialect_rhs_at(v@, j),
{
    match find_def_anchor(v, i) {
        None => false,
        Some(j) => {
            let r = check_dialect_rhs(v, j);
            proof {
                if r {
                    assert(def_anchor_at(v@, i as int, j as int) && dialect_rhs_at(
                        v@,
                        j as int,
                    ));
                } else {
                    assert forall|j2: int|
                        !(#[trigger] def_anchor_at(v@, i as int, j2) && dialect_rhs_at(
                            v@,
                            j2,
                        )) by {
                        if def_anchor_at(v@, i as int, j2) && dialect_rhs_at(v@, j2) {
                            assert(lit_at(v@, j2, dialect_base()));
                            assert(v@[j2] == dialect_base()[0]);
                            lemma_rhs_position_forced(v@, i as int, j as int, j2);
                        }
                    }
                }
            }
            r
        },
    }
}

/// Decide whether a concrete definition deriving from `kw<` stands at `i`.
fn match_suffix_at(v: &Vec<char>, i: usize, kw: &Vec<char>) -> (r: bool)
    requires
        i <= v.len(),
        kw@.len() >= 1,
        forall|t: int| 0 <= t < kw@.len() ==> is_word_char(#[trigger] kw@[t]),
    ensures
        r == exists|j: int|
            #[trigger] def_anchor_at(v@, i as int, j) && suffix_lt_rhs_at(v@, j, kw@),
{
    match find_def_anchor(v, i) {
        None => false,
        Some(j) => {
            let r = check_suffix_lt_rhs(v, j, kw);
            proof {
                if r {
                    assert(def_anchor_at(v@, i as int, j as int) && suffix_lt_rhs_at(
                        v@,
                        j as int,
                        kw@,
                    ));
                } else {
                    assert forall|j2: int|
                        !(#[trigger] def_anchor_at(v@, i as int, j2) && suffix_lt_rhs_at(
                            v@,
                            j2,
                            kw@,
                        )) by {
                        if def_anchor_at(v@, i as int, j2) && suffix_lt_rhs_at(v@, j2, kw@) {
                            let m = choose|m: int|
                                j2 <= m && all_word(v@, j2, m) && lit_at(v@, m, kw@) && m
                                    + kw@.len() < v@.len() && v@[m + kw@.len()] == '<';
                            if m == j2 {
                                assert(v@[j2] == kw@[0]);
                                assert(is_word_char(v@[j2]));
                            } else {
                                assert(is_word_char(v@[j2]));
                            }
                            lemma_rhs_position_forced(v@, i as int, j as int, j2);
                        }
                    }
                }
            }
            r
        },
    }
}

/// Decide whether a direct base-form literal such as `TypeDef<` stands at
/// the right-hand side found at `i`.
fn match_direct_at(v: &Vec<char>, i: usize, base: &Vec<char>) -> (r: bool)
    requires
        i <= v.len(),
        base@.len() >= 1,
        is_word_char(base@[0]),
    ensures
        r == exists|j: int| #[trigger] def_anchor_at(v@, i as int, j) && lit_at(v@, j, base@),
{
    match find_def_anchor(v, i) {
        None => false,
        Some(j) => {
            let r = check_lit_at(v, j, base);
            proof {
                if r {
                    assert(def_anchor_at(v@, i as int, j as int) && lit_at(
                        v@,
                        j as int,
                        base@,
                    ));
                } else {
                    assert forall|j2: int|
                        !(#[trigger] def_anchor_at(v@, i as int, j2) && lit_at(
                            v@,
                            j2,
                            base@,
                        )) by {
                        if def_anchor_at(v@, i as int, j2) && lit_at(v@, j2, base@) {
                            assert(v@[j2] == base@[0]);
                            assert(is_word_char(v@[j2]));
                            lemma_rhs_position_forced(v@, i as int, j as int, j2);
                        }
                    }
                }
            }
            r
        },
    }
}

/// An anchor keyword needs room, so every anchored match starts before
/// the end of the text.
proof fn lemma_anchor_start_in_range(s: Seq<char>, i: int, j: int)
    requires
        def_anchor_at(s, i, j),
    ensures
        0 <= i < s.len(),
{
    let (a, b, c) = choose|a: int, b: int, c: int| def_anchor_parts(s, i, a, b, c, j);
}

/// Search the whole text for a concrete namespace-root definition.
fn text_has_dialect_def(v: &Vec<char>) -> (r: bool)
    ensures
        r == has_dialect_def(v@),
{
    let mut i: usize = 0;
    while i < v.len()
        invariant
            i <= v.len(),
            forall|i2: int, j: int|
                0 <= i2 < i ==> !(#[trigger] def_anchor_at(v@, i2, j) && dialect_rhs_at(v@, j)),
        decreases v.len() - i,
    {
        if match_dialect_at(v, i) {
            return true;
        }
        i = i + 1;
    }
    proof {
        assert(!has_dialect_def(v@)) by {
            if has_dialect_def(v@) {
                let (i0, j0) = choose|i0: int, j0: int|
                    #[trigger] def_anchor_at(v@, i0, j0) && dialect_rhs_at(v@, j0);
                lemma_anchor_start_in_range(v@, i0, j0);
            }
        }
    }
    false
}

/// Search the whole text for a concrete definition deriving from `kw<`.
fn text_has_suffix_def(v: &Vec<char>, kw: &Vec<char>) -> (r: bool)
    requires
        kw@.len() >= 1,
        forall|t: int| 0 <= t < kw@.len() ==> is_word_char(#[trigger] kw@[t]),
    ensures
        r == exists|i: int, j: int|
            #[trigger] def_anchor_at(v@, i, j) && suffix_lt_rhs_at(v@, j, kw@),
{
    let mut i: usize = 0;
    while i < v.len()
        invariant
            i <= v.len(),
            kw@.len() >= 1,
            forall|t: int| 0 <= t < kw@.len() ==> is_word_char(#[trigger] kw@[t]),
            forall|i2: int, j: int|
                0 <= i2 < i ==> !(#[trigger] def_anchor_at(v@, i2, j) && suffix_lt_rhs_at(
                    v@,
                    j,
                    kw@,
                )),
        decreases v.len() - i,
    {
        if match_suffix_at(v, i, kw) {
            return true;
        }
        i = i + 1;
    }
    proof {
        if exists|i0: int, j0: int|
            #[trigger] def_anchor_at(v@, i0, j0) && suffix_lt_rhs_at(v@, j0, kw@) {
            let (i0, j0) = choose|i0: int, j0: int|
                #[trigger] def_anchor_at(v@, i0, j0) && suffix_lt_rhs_at(v@, j0, kw@);
            lemma_anchor_start_in_range(v@, i0, j0);
        }
    }
    false
}

/// Search the whole text for an anchored direct base-form literal.
fn text_has_direct_def(v: &Vec<char>, base: &Vec<char>) -> (r: bool)
    requires
        base@.len() >= 1,
        is_word_char(base@[0]),
    ensures
        r == exists|i: int, j: int| #[trigger] def_anchor_at(v@, i, j) && lit_at(v@, j, base@),
{
    let mut i: usize = 0;
    while i < v.len()
        invariant
            i <= v.len(),
            base@.len() >= 1,
            is_word_char(base@[0]),
            forall|i2: int, j: int|
                0 <= i2 < i ==> !(#[trigger] def_anchor_at(v@, i2, j) && lit_at(v@, j, base@)),
        decreases v.len() - i,
    {
        if match_direct_at(v, i, base) {
            return true;
        }
        i = i + 1;
    }
    proof {
        if exists|i0: int, j0: int| #[trigger] def_anchor_at(v@, i0, j0) && lit_at(
            v@,
            j0,
            base@,
        ) {
            let (i0, j0) = choose|i0: int, j0: int|
                #[trigger] def_anchor_at(v@, i0, j0) && lit_at(v@, j0, base@);
            lemma_anchor_start_in_range(v@, i0, j0);
        }
    }
    false
}

/// What a TableGen file defines, decided by text classification.
#[derive(Debug, Clone)]
pub struct TdFileContents {
    /// The file holds a namespace-root (dialect) definition.
    pub has_dialect: bool,
    /// The file holds operation definitions.
    pub has_ops: bool,
    /// The file holds type-record definitions.
    pub has_types: bool,
    /// The file holds attribute-record definitions.
    pub has_attrs: bool,
    /// The file references enum-attribute records.
    pub has_enums: bool,
    /// The file references the function-interface trait.
    pub has_function_interface: bool,
}

/// The classification of `s`, capability by capability.
pub open spec fn classification_of(s: Seq<char>) -> TdFileContents {
    TdFileContents {
        has_dialect: has_dialect_def(s),
        has_ops: has_op_def(s),
        has_types: has_type_def(s),
        has_attrs: has_attr_def(s),
        has_enums: has_enum_marker(s),
        has_function_interface: has_function_interface_ref(s),
    }
}

/// `c` is the classification of `s`.
pub open spec fn classified(c: TdFileContents, s: Seq<char>) -> bool {
    c == classification_of(s)
}

impl TdFileContents {
    /// True when the file defines at least one entity kind.
    pub fn has_any(&self) -> (r: bool)
        ensures
            r == (self.has_dialect || self.has_ops || self.has_types || self.has_attrs
                || self.has_enums),
    {
        self.has_dialect || self.has_ops || self.has_types || self.has_attrs || self.has_enums
    }
}

impl Default for TdFileContents {
    /// The all-false classification of an empty or unrecognized file.
    fn default() -> (r: Self)
        ensures
            !r.has_dialect,
            !r.has_ops,
            !r.has_types,
            !r.has_attrs,
            !r.has_enums,
            !r.has_function_interface,
    {
        TdFileContents {
            has_dialect: false,
            has_ops: false,
            has_types: false,
            has_attrs: false,
            has_enums: false,
            has_function_interface: false,
        }
    }
}

/// Classify the text of one TableGen file.
///
/// Each capability flag is set exactly when the text holds a concrete
/// definition (or, for enums and the function interface, a reference) of
/// that kind; a `class` template declaration alone never sets a flag.
pub fn detect_td_contents(text: &str) -> (r: TdFileContents)
    ensures
        classified(r, text@),
{
    let v = to_char_vec(text);
    let op_kw = op_base_vec();
    let type_kw = type_base_vec();
    let typedef_kw = typedef_base_vec();
    let attr_kw = attr_base_vec();
    let attrdef_kw = attrdef_base_vec();
    let enum_tok = enum_attr_tok_vec();
    let int_enum_tok = int_enum_attr_tok_vec();
    let bit_enum_tok = bit_enum_attr_tok_vec();
    let iface_tok = function_interface_tok_vec();
    let has_types = text_has_suffix_def(&v, &type_kw) || text_has_direct_def(&v, &typedef_kw);
    let has_attrs = text_has_suffix_def(&v, &attr_kw) || text_has_direct_def(&v, &attrdef_kw);
    let has_enums = has_lit(&v, &enum_tok) || has_lit(&v, &int_enum_tok) || has_lit(
        &v,
        &bit_enum_tok,
    );
    TdFileContents {
        has_dialect: text_has_dialect_def(&v),
        has_ops: text_has_suffix_def(&v, &op_kw),
        has_types,
        has_attrs,
        has_enums,
        has_function_interface: has_lit(&v, &iface_tok),
    }
}

/// Tracks which TableGen file stems produced which content kinds.
///
/// Include paths in the synthesized registration file are derived per
/// capability from the stem of the file that contributed it, since
/// different content kinds may come from different files.
#[derive(Debug, Clone)]
pub struct GeneratedFiles {
    /// Stem of the file that holds the dialect definition.
    pub dialect_stem: Option<String>,
    /// Stem of the file that holds the operation definitions.
    pub ops_stem: Option<String>,
    /// Stem of the file that holds the type-record definitions.
    pub types_stem: Option<String>,
    /// Stem of the file that holds the attribute-record definitions.
    pub attrs_stem: Option<String>,
    /// Stem of the file that references enum-attribute records.
    pub enums_stem: Option<String>,
    /// Whether the function-interface trait is referenced anywhere.
    pub use_function_interface: bool,
}

impl Default for GeneratedFiles {
    /// The empty record: no capability contributed by any file.
    fn default() -> (r: Self)
        ensures
            r.dialect_stem is None,
            r.ops_stem is None,
            r.types_stem is None,
            r.attrs_stem is None,
            r.enums_stem is None,
            !r.use_function_interface,
    {
        GeneratedFiles {
            dialect_stem: None,
            ops_stem: None,
            types_stem: None,
            attrs_stem: None,
            enums_stem: None,
            use_function_interface: false,
        }
    }
}

/// Stem of the first entry that defines a dialect.
pub open spec fn first_dialect_stem(entries: Seq<(String, TdFileContents)>) -> Option<String>
    decreases entries.len(),
{
    if entries.len() == 0 {
        None::<String>
    } else if entries[0].1.has_dialect {
        Some(entries[0].0)
    } else {
        first_dialect_stem(entries.drop_first())
    }
}

/// Stem of the first entry that defines operations.
pub open spec fn first_ops_stem(entries: Seq<(String, TdFileContents)>) -> Option<String>
    decreases entries.len(),
{
    if entries.len() == 0 {
        None::<String>
    } else if entries[0].1.has_ops {
        Some(entries[0].0)
    } else {
        first_ops_stem(entries.drop_first())
    }
}

/// Stem of the first entry that defines type records.
pub open spec fn first_types_stem(entries: Seq<(String, TdFileContents)>) -> Option<String>
    decreases entries.len(),
{
    if entries.len() == 0 {
        None::<String>
    } else if entries[0].1.has_types {
        Some(entries[0].0)
    } else {
        first_types_stem(entries.drop_first())
    }
}

/// Stem of the first entry that defines attribute records.
pub open spec fn first_attrs_stem(entries: Seq<(String, TdFileContents)>) -> Option<String>
    decreases entries.len(),
{
    if entries.len() == 0 {
        None::<String>
    } else if entries[0].1.has_attrs {
        Some(entries[0].0)
    } else {
        first_attrs_stem(entries.drop_first())
    }
}

/// Stem of the first entry that references enum records.
pub open spec fn first_enums_stem(entries: Seq<(String, TdFileContents)>) -> Option<String>
    decreases entries.len(),
{
    if entries.len() == 0 {
        None::<String>
    } else if entries[0].1.has_enums {
        Some(entries[0].0)
    } else {
        first_enums_stem(entries.drop_first())
    }
}

/// Whether any entry references the function-interface trait.
pub open spec fn any_function_interface(entries: Seq<(String, TdFileContents)>) -> bool
    decreases entries.len(),
{
    if entries.len() == 0 {
        false
    } else {
        entries[0].1.has_function_interface || any_function_interface(entries.drop_first())
    }
}

impl GeneratedFiles {
    /// Fold the per-file classifications, keyed by each file's stem, into
    /// one provenance record. For each capability the first contributing
    /// file (in input order) supplies the stem.
    pub fn aggregate(entries: &Vec<(String, TdFileContents)>) -> (r: GeneratedFiles)
        ensures
            r.dialect_stem == first_dialect_stem(entries@),
            r.ops_stem == first_ops_stem(entries@),
            r.types_stem == first_types_stem(entries@),
            r.attrs_stem == first_attrs_stem(entries@),
            r.enums_stem == first_enums_stem(entries@),
            r.use_function_interface == any_function_interface(entries@),
    {
        let ghost all = entries@;
        let mut r = GeneratedFiles {
            dialect_stem: None,
            ops_stem: None,
            types_stem: None,
            attrs_stem: None,
            enums_stem: None,
            use_function_interface: false,
        };
        let mut i = entries.len();
        proof {
            assert(all.subrange(i as int, all.len() as int) =~= Seq::<(
                String,
                TdFileContents,
            )>::empty());
        }
        while i > 0
            invariant
                i <= entries.len(),
                entries@ == all,
                r.dialect_stem == first_dialect_stem(all.subrange(i as int, all.len() as int)),
                r.ops_stem == first_ops_stem(all.subrange(i as int, all.len() as int)),
                r.types_stem == first_types_stem(all.subrange(i as int, all.len() as int)),
                r.attrs_stem == first_attrs_stem(all.subrange(i as int, all.len() as int)),
                r.enums_stem == first_enums_stem(all.subrange(i as int, all.len() as int)),
                r.use_function_interface == any_function_interface(
                    all.subrange(i as int, all.len() as int),
                ),
            decreases i,
        {
            i = i - 1;
            proof {
                assert(all.subrange(i as int, all.len() as int).drop_first() =~= all.subrange(
                    i + 1,
                    all.len() as int,
                ));
                assert(all.subrange(i as int, all.len() as int)[0] == all[i as int]);
            }
            let e = &entries[i];
            if e.1.has_dialect {
                r.dialect_stem = Some(e.0.clone());
            }
            if e.1.has_ops {
                r.ops_stem = Some(e.0.clone());
            }
            if e.1.has_types {
                r.types_stem = Some(e.0.clone());
            }
            if e.1.has_attrs {
                r.attrs_stem = Some(e.0.clone());
            }
            if e.1.has_enums {
                r.enums_stem = Some(e.0.clone());
            }
            r.use_function_interface = e.1.has_function_interface || r.use_function_interface;
        }
        proof {
            assert(all.subrange(0, all.len() as int) =~= all);
        }
        r
    }
}

/// One planned generator invocation: the action selector and the file it
/// writes.
#[derive(Debug, Clone)]
pub struct TblgenRun {
    /// Generator action selector, e.g. `-gen-op-decls`.
    pub action: String,
    /// Path of the `.inc` file the invocation writes.
    pub output: String,
}

/// The full invocation plan for one TableGen file: every field of the
/// command line is fixed, so running the plan is pure process glue.
#[derive(Debug, Clone)]
pub struct TdFilePlan {
    /// Path of the generator binary.
    pub tool: String,
    /// The TableGen file to process.
    pub td_file: String,
    /// The file's stem, from which the output names derive.
    pub stem: String,
    /// Search directories, the LLVM directory first.
    pub include_dirs: Vec<String>,
    /// Dialect name handed to the generator as a selector.
    pub dialect: String,
    /// The invocations to run, in canonical capability order.
    pub runs: Vec<TblgenRun>,
}

/// A generated output path: directory, separator, stem and suffix.
pub open spec fn out_path(dir: Seq<char>, stem: Seq<char>, suffix: Seq<char>) -> Seq<char> {
    dir + "/"@ + stem + suffix
}

/// The two dialect-generation passes of a file that defines the dialect.
pub open spec fn dialect_runs(c: TdFileContents, dir: Seq<char>, stem: Seq<char>) -> Seq<
    (Seq<char>, Seq<char>),
> {
    if c.has_dialect {
        seq![
            ("-gen-dialect-decls"@, out_path(dir, stem, "Dialect.h.inc"@)),
            ("-gen-dialect-defs"@, out_path(dir, stem, "Dialect.cpp.inc"@)),
        ]
    } else {
        Seq::empty()
    }
}

/// The two operation-generation passes of a file that defines operations.
pub open spec fn op_runs(c: TdFileContents, dir: Seq<char>, stem: Seq<char>) -> Seq<
    (Seq<char>, Seq<char>),
> {
    if c.has_ops {
        seq![
            ("-gen-op-decls"@, out_path(dir, stem, ".h.inc"@)),
            ("-gen-op-defs"@, out_path(dir, stem, ".cpp.inc"@)),
        ]
    } else {
        Seq::empty()
    }
}

/// The two type-generation passes of a file that defines type records.
pub open spec fn type_runs(c: TdFileContents, dir: Seq<char>, stem: Seq<char>) -> Seq<
    (Seq<char>, Seq<char>),
> {
    if c.has_types {
        seq![
            ("-gen-typedef-decls"@, out_path(dir, stem, "Types.h.inc"@)),
            ("-gen-typedef-defs"@, out_path(dir, stem, "Types.cpp.inc"@)),
        ]
    } else {
        Seq::empty()
    }
}

/// The two attribute-generation passes of a file that defines attribute
/// records.
pub open spec fn attr_runs(c: TdFileContents, dir: Seq<char>, stem: Seq<char>) -> Seq<
    (Seq<char>, Seq<char>),
> {
    if c.has_attrs {
        seq![
            ("-gen-attrdef-decls"@, out_path(dir, stem, "Attrs.h.inc"@)),
            ("-gen-attrdef-defs"@, out_path(dir, stem, "Attrs.cpp.inc"@)),
        ]
    } else {
        Seq::empty()
    }
}

/// The two enum-generation passes of a file that references enum records.
pub open spec fn enum_runs(c: TdFileContents, dir: Seq<char>, stem: Seq<char>) -> Seq<
    (Seq<char>, Seq<char>),
> {
    if c.has_enums {
        seq![
            ("-gen-enum-decls"@, out_path(dir, stem, "Enums.h.inc"@)),
            ("-gen-enum-defs"@, out_path(dir, stem, "Enums.cpp.inc"@)),
        ]
    } else {
        Seq::empty()
    }
}

/// Every invocation a file needs, in canonical capability order:
/// dialect, operations, types, attributes, enums.
pub open spec fn planned_runs(c: TdFileContents, dir: Seq<char>, stem: Seq<char>) -> Seq<
    (Seq<char>, Seq<char>),
> {
    dialect_runs(c, dir, stem) + op_runs(c, dir, stem) + type_runs(c, dir, stem) + attr_runs(
        c,
        dir,
        stem,
    ) + enum_runs(c, dir, stem)
}

/// The run list realizes the planned (action, output) pairs exactly.
pub open spec fn runs_match(rs: Seq<TblgenRun>, ps: Seq<(Seq<char>, Seq<char>)>) -> bool {
    &&& rs.len() == ps.len()
    &&& forall|t: int|
        0 <= t < rs.len() ==> (#[trigger] rs[t]).action@ == ps[t].0 && rs[t].output@ == ps[t].1
}

/// Join an output directory, stem and suffix into one path.
fn joined_out_path(dir: &str, stem: &str, suffix: &str) -> (r: String)
    ensures
        r@ == out_path(dir@, stem@, suffix@),
{
    let mut s = dir.to_owned();
    s.append("/");
    s.append(stem);
    s.append(suffix);
    proof {
        assert(s@ =~= out_path(dir@, stem@, suffix@));
    }
    s
}

/// Diagnostic for a generator invocation that exited with a failure.
pub open spec fn msg_tblgen_failed(action: Seq<char>, stderr: Seq<char>) -> Seq<char> {
    "mlir-tblgen "@ + action + " failed:\n"@ + stderr
}

/// Turn a failed generator invocation into its fatal diagnostic,
/// naming the action that failed and carrying the tool's captured
/// error text.
pub fn tblgen_failure(action: &str, stderr: &str) -> (e: Error)
    ensures
        e matches Error::TblgenFailed(m) && m@ == msg_tblgen_failed(action@, stderr@),
{
    let mut m = "mlir-tblgen ".to_owned();
    m.append(action);
    m.append(" failed:\n");
    m.append(stderr);
    Error::TblgenFailed(m)
}

/// Planner for mlir-tblgen invocations.
pub struct TblgenRunner {
    /// Path to the mlir-tblgen binary.
    pub tblgen_path: String,
    /// LLVM include directory.
    pub llvm_include: String,
}

impl TblgenRunner {
    /// Create a runner from the LLVM prefix.
    ///
    /// Whether the generator binary actually exists at the derived path
    /// is a fact about the file system, so the caller probes it and
    /// passes the outcome in; a missing binary is the discovery error.
    pub fn new(llvm_prefix: &str, tblgen_present: bool) -> (r: Result<TblgenRunner, Error>)
        ensures
            tblgen_present ==> (r matches Ok(t) && t.tblgen_path@ == llvm_prefix@
                + "/bin/mlir-tblgen"@ && t.llvm_include@ == llvm_prefix@ + "/include"@),
            !tblgen_present ==> (r matches Err(e) && e matches Error::TblgenNotFound(p) && p@
                == llvm_prefix@ + "/bin/mlir-tblgen"@),
    {
        let mut tblgen_path = llvm_prefix.to_owned();
        tblgen_path.append("/bin/mlir-tblgen");
        if !tblgen_present {
            return Err(Error::TblgenNotFound(tblgen_path));
        }
        let mut llvm_include = llvm_prefix.to_owned();
        llvm_include.append("/include");
        Ok(TblgenRunner { tblgen_path, llvm_include })
    }

    /// Plan the `.inc` generation for one TableGen file from its
    /// detected contents.
    ///
    /// Output names follow the MLIR convention: they are derived from
    /// the file's own stem plus a fixed per-capability suffix pair, and
    /// the passes come in canonical capability order. A file whose base
    /// name cannot be determined is a configuration error.
    pub fn generate_for_file(
        &self,
        td_file: &str,
        include_dirs: &Vec<String>,
        output_dir: &str,
        dialect_name: &str,
        contents: &TdFileContents,
    ) -> (r: Result<TdFilePlan, Error>)
        ensures
            valid_td_path(td_file@) ==> (r matches Ok(p) && {
                &&& p.tool == self.tblgen_path
                &&& p.td_file@ == td_file@
                &&& p.stem@ == stem_spec(td_file@)
                &&& p.dialect@ == dialect_name@
                &&& p.include_dirs@ == seq![self.llvm_include] + include_dirs@
                &&& runs_match(p.runs@, planned_runs(*contents, output_dir@, stem_spec(td_file@)))
            }),
            !valid_td_path(td_file@) ==> (r matches Err(e) && e matches Error::InvalidPath(m)
                && m@ == msg_invalid_path(td_file@)),
    {
        let stem = match file_stem(td_file) {
            Ok(s) => s,
            Err(e) => {
                return Err(e);
            },
        };
        let ghost dir = output_dir@;
        let ghost st = stem_spec(td_file@);
        // the LLVM search directory always comes first
        let mut all_dirs: Vec<String> = Vec::new();
        all_dirs.push(self.llvm_include.clone());
        let mut i: usize = 0;
        while i < include_dirs.len()
            invariant
                i <= include_dirs@.len(),
                all_dirs@ =~= seq![self.llvm_include] + include_dirs@.subrange(0, i as int),
            decreases include_dirs@.len() - i,
        {
            all_dirs.push(include_dirs[i].clone());
            i = i + 1;
        }
        proof {
            assert(include_dirs@.subrange(0, include_dirs@.len() as int) =~= include_dirs@);
        }
        let mut runs: Vec<TblgenRun> = Vec::new();
        if contents.has_dialect {
            runs.push(
                TblgenRun {
                    action: "-gen-dialect-decls".to_owned(),
                    output: joined_out_path(output_dir, stem.as_str(), "Dialect.h.inc"),
                },
            );
            runs.push(
                TblgenRun {
                    action: "-gen-dialect-defs".to_owned(),
                    output: joined_out_path(output_dir, stem.as_str(), "Dialect.cpp.inc"),
                },
            );
        }
        proof {
            assert(runs_match(runs@, dialect_runs(*contents, dir, st)));
        }
        let ghost g1 = dialect_runs(*contents, dir, st);
        if contents.has_ops {
            runs.push(
                TblgenRun {
                    action: "-gen-op-decls".to_owned(),
                    output: joined_out_path(output_dir, stem.as_str(), ".h.inc"),
                },
            );
            runs.push(
                TblgenRun {
                    action: "-gen-op-defs".to_owned(),
                    output: joined_out_path(output_dir, stem.as_str(), ".cpp.inc"),
                },
            );
        }
        proof {
            assert(runs_match(runs@, g1 + op_runs(*contents, dir, st)));
        }
        let ghost g2 = g1 + op_runs(*contents, dir, st);
        if contents.has_types {
            runs.push(
                TblgenRun {
                    action: "-gen-typedef-decls".to_owned(),
                    output: joined_out_path(output_dir, stem.as_str(), "Types.h.inc"),
                },
            );
            runs.push(
                TblgenRun {
                    action: "-gen-typedef-defs".to_owned(),
                    output: joined_out_path(output_dir, stem.as_str(), "Types.cpp.inc"),
                },
            );
        }
        proof {
            assert(runs_match(runs@, g2 + type_runs(*contents, dir, st)));
        }
        let ghost g3 = g2 + type_runs(*contents, dir, st);
        if contents.has_attrs {
            runs.push(
                TblgenRun {
                    action: "-gen-attrdef-decls".to_owned(),
                    output: joined_out_path(output_dir, stem.as_str(), "Attrs.h.inc"),
                },
            );
            runs.push(
                TblgenRun {
                    action: "-gen-attrdef-defs".to_owned(),
                    output: joined_out_path(output_dir, stem.as_str(), "Attrs.cpp.inc"),
                },
            );
        }
        proof {
            assert(runs_match(runs@, g3 + attr_runs(*contents, dir, st)));
        }
        let ghost g4 = g3 + attr_runs(*contents, dir, st);
        if contents.has_enums {
            runs.push(
                TblgenRun {
                    action: "-gen-enum-decls".to_owned(),
                    output: joined_out_path(output_dir, stem.as_str(), "Enums.h.inc"),
                },
            );
            runs.push(
                TblgenRun {
                    action: "-gen-enum-defs".to_owned(),
                    output: joined_out_path(output_dir, stem.as_str(), "Enums.cpp.inc"),
                },
            );
        }
        proof {
            assert(runs_match(runs@, g4 + enum_runs(*contents, dir, st)));
            assert(g4 + enum_runs(*contents, dir, st) == planned_runs(*contents, dir, st));
        }
        Ok(
            TdFilePlan {
                tool: self.tblgen_path.clone(),
                td_file: td_file.to_owned(),
                stem,
                include_dirs: all_dirs,
                dialect: dialect_name.to_owned(),
                runs,
            },
        )
    }
}

/// The five generated entity kinds.
pub enum Capability {
    /// Namespace-root (dialect) definitions.
    Dialect,
    /// Operation definitions.
    Ops,
    /// Type-record definitions.
    Types,
    /// Attribute-record definitions.
    Attrs,
    /// Enum-attribute records.
    Enums,
}

/// The flag of one capability in a classification.
pub open spec fn cap_flag(c: TdFileContents, k: Capability) -> bool {
    match k {
        Capability::Dialect => c.has_dialect,
        Capability::Ops => c.has_ops,
        Capability::Types => c.has_types,
        Capability::Attrs => c.has_attrs,
        Capability::Enums => c.has_enums,
    }
}

/// The stem recorded for one capability in a provenance record.
pub open spec fn cap_stem(g: GeneratedFiles, k: Capability) -> Option<String> {
    match k {
        Capability::Dialect => g.dialect_stem,
        Capability::Ops => g.ops_stem,
        Capability::Types => g.types_stem,
        Capability::Attrs => g.attrs_stem,
        Capability::Enums => g.enums_stem,
    }
}

/// The aggregated stem of one capability, as a function of the entry
/// list.
pub open spec fn first_cap_stem(entries: Seq<(String, TdFileContents)>, k: Capability) -> Option<
    String,
> {
    match k {
        Capability::Dialect => first_dialect_stem(entries),
        Capability::Ops => first_ops_stem(entries),
        Capability::Types => first_types_stem(entries),
        Capability::Attrs => first_attrs_stem(entries),
        Capability::Enums => first_enums_stem(entries),
    }
}

/// The view of an optional stem.
pub open spec fn opt_view(o: Option<String>) -> Option<Seq<char>> {
    match o {
        Some(s) => Some(s@),
        None => None,
    }
}

/// The stem that one capability gets when the files named in `files`
/// carry the texts in `texts`: the stem of the first file whose text
/// sets that capability's flag.
pub open spec fn cap_stem_view(files: Seq<Seq<char>>, texts: Seq<Seq<char>>, k: Capability) -> Option<
    Seq<char>,
>
    decreases texts.len(),
{
    if texts.len() == 0 || files.len() == 0 {
        None::<Seq<char>>
    } else if cap_flag(classification_of(texts[0]), k) {
        Some(stem_spec(files[0]))
    } else {
        cap_stem_view(files.drop_first(), texts.drop_first(), k)
    }
}

/// Whether any of the texts references the function-interface trait.
pub open spec fn any_iface_view(texts: Seq<Seq<char>>) -> bool
    decreases texts.len(),
{
    if texts.len() == 0 {
        false
    } else {
        has_function_interface_ref(texts[0]) || any_iface_view(texts.drop_first())
    }
}

/// An entry list whose stems and classifications come from `files` and
/// `texts` aggregates to the same stems as the view-level fold.
pub proof fn lemma_cap_stem_view(
    entries: Seq<(String, TdFileContents)>,
    files: Seq<Seq<char>>,
    texts: Seq<Seq<char>>,
    k: Capability,
)
    requires
        entries.len() == files.len(),
        entries.len() == texts.len(),
        forall|i: int|
            0 <= i < entries.len() ==> (#[trigger] entries[i]).0@ == stem_spec(files[i]) && entries[
                i
            ].1 == classification_of(texts[i]),
    ensures
        opt_view(first_cap_stem(entries, k)) == cap_stem_view(files, texts, k),
    decreases entries.len(),
{
    if entries.len() > 0 {
        assert(entries[0].0@ == stem_spec(files[0]) && entries[0].1 == classification_of(
            texts[0],
        ));
        assert(entries.drop_first().len() == files.drop_first().len());
        assert(forall|i: int|
            0 <= i < entries.drop_first().len() ==> (#[trigger] entries.drop_first()[i])
                == entries[i + 1]);
        lemma_cap_stem_view(entries.drop_first(), files.drop_first(), texts.drop_first(), k);
    }
}

/// The same correspondence for the function-interface flag.
pub proof fn lemma_any_iface_view(
    entries: Seq<(String, TdFileContents)>,
    texts: Seq<Seq<char>>,
)
    requires
        entries.len() == texts.len(),
        forall|i: int|
            0 <= i < entries.len() ==> (#[trigger] entries[i]).1 == classification_of(texts[i]),
    ensures
        any_function_interface(entries) == any_iface_view(texts),
    decreases entries.len(),
{
    if entries.len() > 0 {
        assert(entries[0].1 == classification_of(texts[0]));
        assert(forall|i: int|
            0 <= i < entries.drop_first().len() ==> (#[trigger] entries.drop_first()[i])
                == entries[i + 1]);
        lemma_any_iface_view(entries.drop_first(), texts.drop_first());
    }
}

/// Index of the first path in `files` without a usable base name, or
/// the length when every path has one.
pub open spec fn first_invalid_td(files: Seq<Seq<char>>, from: int) -> int
    decreases files.len() - from,
{
    if from < 0 || from >= files.len() {
        files.len() as int
    } else if !valid_td_path(files[from]) {
        from
    } else {
        first_invalid_td(files, from + 1)
    }
}

/// A scan that found only usable base names pins down
/// [`first_invalid_td`].
pub proof fn lemma_first_invalid_td(files: Seq<Seq<char>>, from: int, r: int)
    requires
        0 <= from <= r <= files.len(),
        forall|x: int| from <= x < r ==> valid_td_path(#[trigger] files[x]),
        r < files.len() ==> !valid_td_path(files[r]),
    ensures
        first_invalid_td(files, from) == r,
    decreases r - from,
{
    if from < r {
        lemma_first_invalid_td(files, from + 1, r);
    }
}

/// End of the path once trailing separators are dropped: like the
/// standard path reading, `dir/` names the same entry as `dir`.
pub open spec fn path_end(s: Seq<char>, to: int) -> int
    decreases to,
{
    if to <= 0 {
        0
    } else if s[to - 1] == '/' {
        path_end(s, to - 1)
    } else {
        to
    }
}

/// Index after the last path separator before `to`.
pub open spec fn base_start(s: Seq<char>, to: int) -> int
    decreases to,
{
    if to <= 0 {
        0
    } else if s[to - 1] == '/' {
        to
    } else {
        base_start(s, to - 1)
    }
}

/// Index of the last `.` in `[lo, to)`, or `-1` when there is none.
pub open spec fn last_dot_from(s: Seq<char>, lo: int, to: int) -> int
    decreases to - lo,
{
    if to <= lo {
        -1
    } else if s[to - 1] == '.' {
        to - 1
    } else {
        last_dot_from(s, lo, to - 1)
    }
}

/// The path has a usable base name: after trailing separators are
/// dropped, the last component is nonempty and not `.` or `..`. (A
/// relative directory reference anywhere in the last component is
/// rejected here, a deliberately stricter rule than full path
/// normalization.)
pub open spec fn valid_td_path(s: Seq<char>) -> bool {
    let pe = path_end(s, s.len() as int);
    let bs = base_start(s, pe);
    &&& pe - bs >= 1
    &&& !(pe - bs == 1 && s[bs] == '.')
    &&& !(pe - bs == 2 && s[bs] == '.' && s[bs + 1] == '.')
}

/// The file stem of a path: its base name without the extension,
/// trailing separators ignored. A name whose only `.` leads it keeps
/// the whole name.
pub open spec fn stem_spec(s: Seq<char>) -> Seq<char> {
    let pe = path_end(s, s.len() as int);
    let bs = base_start(s, pe);
    let d = last_dot_from(s, bs, pe);
    if d > bs {
        s.subrange(bs, d)
    } else {
        s.subrange(bs, pe)
    }
}

/// Diagnostic for a path without a usable base name.
pub open spec fn msg_invalid_path(path: Seq<char>) -> Seq<char> {
    "Invalid TD file path: "@ + path
}

/// A scan over trailing separators pins down [`path_end`].
proof fn lemma_path_end_scan(s: Seq<char>, pe: int, to: int)
    requires
        0 <= pe <= to <= s.len(),
        forall|x: int| pe <= x < to ==> s[x] == '/',
        pe > 0 ==> s[pe - 1] != '/',
    ensures
        path_end(s, to) == pe,
    decreases to - pe,
{
    if pe < to {
        lemma_path_end_scan(s, pe, to - 1);
    }
}

/// A scan that found no separator below `to` pins down [`base_start`].
proof fn lemma_base_start_agrees(s: Seq<char>, to: int, r: int)
    requires
        0 <= r <= to <= s.len(),
        forall|x: int| r <= x < to ==> s[x] != '/',
        r > 0 ==> s[r - 1] == '/',
    ensures
        base_start(s, to) == r,
    decreases to - r,
{
    if r < to {
        lemma_base_start_agrees(s, to - 1, r);
    }
}

/// A scan that found no dot below `to` pins down [`last_dot_from`].
proof fn lemma_last_dot_agrees(s: Seq<char>, lo: int, to: int, r: int)
    requires
        0 <= lo <= to <= s.len(),
        r == -1 || (lo <= r < to && s[r] == '.'),
        forall|x: int| lo <= x < to && r < x ==> s[x] != '.',
    ensures
        last_dot_from(s, lo, to) == r,
    decreases to - lo,
{
    if to > lo && to - 1 > r {
        assert(s[to - 1] != '.');
        lemma_last_dot_agrees(s, lo, to - 1, r);
    }
}

/// Compute the file stem of a TableGen path, or report the configuration
/// error for a path without a usable base name.
pub fn file_stem(path: &str) -> (r: Result<String, Error>)
    ensures
        valid_td_path(path@) ==> (r matches Ok(st) && st@ == stem_spec(path@)),
        !valid_td_path(path@) ==> (r matches Err(e) && e matches Error::InvalidPath(m) && m@
            == msg_invalid_path(path@)),
{
    let v = to_char_vec(path);
    let n = v.len();
    let mut pe = n;
    while pe > 0 && v[pe - 1] == '/'
        invariant
            pe <= n,
            n == v.len(),
            forall|x: int| pe <= x < n ==> v@[x] == '/',
        decreases pe,
    {
        pe = pe - 1;
    }
    proof {
        lemma_path_end_scan(v@, pe as int, n as int);
    }
    let mut bs = pe;
    while bs > 0 && v[bs - 1] != '/'
        invariant
            bs <= pe <= n,
            n == v.len(),
            forall|x: int| bs <= x < pe ==> v@[x] != '/',
        decreases bs,
    {
        bs = bs - 1;
    }
    proof {
        lemma_base_start_agrees(v@, pe as int, bs as int);
    }
    let base_len = pe - bs;
    let invalid = base_len == 0 || (base_len == 1 && v[bs] == '.') || (base_len == 2 && v[bs]
        == '.' && v[bs + 1] == '.');
    if invalid {
        let mut m = "Invalid TD file path: ".to_owned();
        m.append(path);
        return Err(Error::InvalidPath(m));
    }
    let mut d = pe;
    while d > bs && v[d - 1] != '.'
        invariant
            bs <= d <= pe <= n,
            n == v.len(),
            forall|x: int| d <= x < pe ==> v@[x] != '.',
        decreases d,
    {
        d = d - 1;
    }
    if d > bs {
        proof {
            lemma_last_dot_agrees(v@, bs as int, pe as int, d - 1);
        }
        if d - 1 > bs {
            let st = path.substring_char(bs, d - 1).to_owned();
            proof {
                assert(st@ =~= stem_spec(path@));
            }
            Ok(st)
        } else {
            let st = path.substring_char(bs, pe).to_owned();
            proof {
                assert(st@ =~= stem_spec(path@));
            }
            Ok(st)
        }
    } else {
        proof {
            lemma_last_dot_agrees(v@, bs as int, pe as int, -1);
        }
        let st = path.substring_char(bs, pe).to_owned();
        proof {
            assert(st@ =~= stem_spec(path@));
        }
        Ok(st)
    }
}

} // verus!
