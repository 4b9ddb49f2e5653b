//! Character-level text scanning shared by the classifier and the
//! namespace resolver.

use vstd::prelude::*;

verus! {

/// Relies on String::push: appends the given character to the end of the
/// string.
pub assume_specification[ String::push ](s: &mut String, ch: char)
    ensures
        final(s)@ == old(s)@ + seq![ch],
;

/// Whitespace as the recognizers and the namespace trim understand it:
/// the Unicode White_Space code points, the same set that Rust's
/// whitespace test and the pattern class of the definition-language
/// recognizers accept.
pub open spec fn is_space_char(c: char) -> bool {
    ||| c == '\t'
    ||| c == '\n'
    ||| c == '\u{000B}'
    ||| c == '\u{000C}'
    ||| c == '\r'
    ||| c == ' '
    ||| c == '\u{0085}'
    ||| c == '\u{00A0}'
    ||| c == '\u{1680}'
    ||| ('\u{2000}' as u32 <= c as u32 && c as u32 <= '\u{200A}' as u32)
    ||| c == '\u{2028}'
    ||| c == '\u{2029}'
    ||| c == '\u{202F}'
    ||| c == '\u{205F}'
    ||| c == '\u{3000}'
}

/// Identifier characters: ASCII letters, digits and underscore.
///
/// This is a deliberate restriction to ASCII identifiers. The original
/// word-character class is the full Unicode one, which is not
/// enumerable here; definition-language names are ASCII in practice, so
/// a name written with non-ASCII letters is the one input class where
/// this model diverges.
pub open spec fn is_word_char(c: char) -> bool {
    ||| 'a' as u32 <= c as u32 && c as u32 <= 'z' as u32
    ||| 'A' as u32 <= c as u32 && c as u32 <= 'Z' as u32
    ||| '0' as u32 <= c as u32 && c as u32 <= '9' as u32
    ||| c == '_'
}

/// Every character in `[from, to)` is whitespace.
pub open spec fn all_space(s: Seq<char>, from: int, to: int) -> bool {
    forall|k: int| from <= k < to ==> is_space_char(#[trigger] s[k])
}

/// Every character in `[from, to)` is an identifier character.
pub open spec fn all_word(s: Seq<char>, from: int, to: int) -> bool {
    forall|k: int| from <= k < to ==> is_word_char(#[trigger] s[k])
}

/// The literal `lit` occurs at position `p` of `s`.
pub open spec fn lit_at(s: Seq<char>, p: int, lit: Seq<char>) -> bool {
    &&& 0 <= p
    &&& p + lit.len() <= s.len()
    &&& forall|k: int| 0 <= k < lit.len() ==> s[p + k] == #[trigger] lit[k]
}

/// The literal `lit` occurs somewhere in `s`.
pub open spec fn contains_lit(s: Seq<char>, lit: Seq<char>) -> bool {
    exists|p: int| lit_at(s, p, lit)
}

/// End of the whitespace run that starts at `from`, as a specification.
pub open spec fn space_run_from(s: Seq<char>, from: int) -> int
    decreases s.len() - from,
{
    if from < 0 || from >= s.len() {
        from
    } else if is_space_char(s[from]) {
        space_run_from(s, from + 1)
    } else {
        from
    }
}

/// Start of the whitespace run that ends at `to`, as a specification.
pub open spec fn space_run_back(s: Seq<char>, to: int) -> int
    decreases to,
{
    if to <= 0 || to > s.len() {
        to
    } else if is_space_char(s[to - 1]) {
        space_run_back(s, to - 1)
    } else {
        to
    }
}

/// A maximal whitespace run starting at `from` ends exactly at
/// [`space_run_from`].
pub proof fn lemma_space_run_from_agrees(s: Seq<char>, from: int, r: int)
    requires
        0 <= from <= r <= s.len(),
        all_space(s, from, r),
        r < s.len() ==> !is_space_char(s[r]),
    ensures
        space_run_from(s, from) == r,
    decreases r - from,
{
    if from < r {
        assert(is_space_char(s[from]));
        lemma_space_run_from_agrees(s, from + 1, r);
    }
}

/// A maximal whitespace run ending at `to` starts exactly at
/// [`space_run_back`].
pub proof fn lemma_space_run_back_agrees(s: Seq<char>, to: int, r: int)
    requires
        0 <= r <= to <= s.len(),
        all_space(s, r, to),
        r > 0 ==> !is_space_char(s[r - 1]),
    ensures
        space_run_back(s, to) == r,
    decreases to - r,
{
    if r < to {
        assert(is_space_char(s[to - 1]));
        lemma_space_run_back_agrees(s, to - 1, r);
    }
}

/// Executable mirror of [`is_space_char`].
pub fn is_space(c: char) -> (r: bool)
    ensures
        r == is_space_char(c),
{
    let u = c as u32;
    c == '\t' || c == '\n' || c == '\u{000B}' || c == '\u{000C}' || c == '\r' || c == ' ' || c
        == '\u{0085}' || c == '\u{00A0}' || c == '\u{1680}' || ('\u{2000}' as u32 <= u && u
        <= '\u{200A}' as u32) || c == '\u{2028}' || c == '\u{2029}' || c == '\u{202F}' || c
        == '\u{205F}' || c == '\u{3000}'
}

/// Executable mirror of [`is_word_char`].
pub fn is_word(c: char) -> (r: bool)
    ensures
        r == is_word_char(c),
{
    let u = c as u32;
    ('a' as u32 <= u && u <= 'z' as u32) || ('A' as u32 <= u && u <= 'Z' as u32) || ('0' as u32
        <= u && u <= '9' as u32) || c == '_'
}

/// Collect the characters of `s` for random access.
pub fn to_char_vec(s: &str) -> (v: Vec<char>)
    ensures
        v@ == s@,
{
    let n = s.unicode_len();
    let mut v: Vec<char> = Vec::new();
    let mut i: usize = 0;
    while i < n
        invariant
            n == s@.len(),
            i <= n,
            v@ =~= s@.subrange(0, i as int),
        decreases n - i,
    {
        v.push(s.get_char(i));
        i = i + 1;
    }
    proof {
        assert(s@.subrange(0, n as int) =~= s@);
    }
    v
}

/// End of the whitespace run that starts at `from`.
pub fn scan_space_end(v: &Vec<char>, from: usize) -> (r: usize)
    requires
        from <= v.len(),
    ensures
        from <= r <= v.len(),
        all_space(v@, from as int, r as int),
        r < v.len() ==> !is_space_char(v@[r as int]),
{
    let mut i = from;
    while i < v.len() && is_space(v[i])
        invariant
            from <= i <= v.len(),
            all_space(v@, from as int, i as int),
        decreases v.len() - i,
    {
        i = i + 1;
    }
    i
}

/// End of the identifier-character run that starts at `from`.
pub fn scan_word_end(v: &Vec<char>, from: usize) -> (r: usize)
    requires
        from <= v.len(),
    ensures
        from <= r <= v.len(),
        all_word(v@, from as int, r as int),
        r < v.len() ==> !is_word_char(v@[r as int]),
{
    let mut i = from;
    while i < v.len() && is_word(v[i])
        invariant
            from <= i <= v.len(),
            all_word(v@, from as int, i as int),
        decreases v.len() - i,
    {
        i = i + 1;
    }
    i
}

/// Decide whether `lit` occurs at position `p` of `v`.
pub fn check_lit_at(v: &Vec<char>, p: usize, lit: &Vec<char>) -> (r: bool)
    ensures
        r == lit_at(v@, p as int, lit@),
{
    if p > v.len() || lit.len() > v.len() - p {
        return false;
    }
    let mut k: usize = 0;
    while k < lit.len()
        invariant
            p + lit.len() <= v.len(),
            k <= lit.len(),
            forall|t: int| 0 <= t < k ==> v@[p + t] == #[trigger] lit@[t],
        decreases lit.len() - k,
    {
        if v[p + k] != lit[k] {
            proof {
                assert(!lit_at(v@, p as int, lit@)) by {
                    if lit_at(v@, p as int, lit@) {
                        assert(v@[p + k] == lit@[k as int]);
                    }
                }
            }
            return false;
        }
        k = k + 1;
    }
    true
}

/// Decide whether `lit` occurs anywhere in `v`.
pub fn has_lit(v: &Vec<char>, lit: &Vec<char>) -> (r: bool)
    requires
        lit@.len() >= 1,
    ensures
        r == contains_lit(v@, lit@),
{
    let mut p: usize = 0;
    while p < v.len()
        invariant
            p <= v.len(),
            lit@.len() >= 1,
            forall|q: int| 0 <= q < p ==> !#[trigger] lit_at(v@, q, lit@),
        decreases v.len() - p,
    {
        if check_lit_at(v, p, lit) {
            return true;
        }
        p = p + 1;
    }
    proof {
        assert(!contains_lit(v@, lit@)) by {
            if contains_lit(v@, lit@) {
                let q = choose|q: int| lit_at(v@, q, lit@);
                assert(q + lit@.len() <= v@.len());
                assert(0 <= q < v@.len());
            }
        }
    }
    false
}

} // verus!
