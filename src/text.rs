//! Characters, case folding and substring containment.
use vstd::prelude::*;

verus! {

/// The ASCII lowercase of `c`: `A`..=`Z` map to `a`..=`z`, every other
/// character stays as it is.
pub open spec fn ascii_lower(c: char) -> char {
    if 'A' <= c && c <= 'Z' {
        (((c as u8) + 32) as u8) as char
    } else {
        c
    }
}

/// `s` as it is compared: ASCII-lowercased when `case_insensitive`.
pub open spec fn fold_case(s: Seq<char>, case_insensitive: bool) -> Seq<char> {
    if case_insensitive {
        s.map_values(|c: char| ascii_lower(c))
    } else {
        s
    }
}

/// `needle` occurs in `hay` as a contiguous run of characters.
pub open spec fn contains_seq(hay: Seq<char>, needle: Seq<char>) -> bool {
    exists|i: int|
        0 <= i && i + needle.len() <= hay.len() && #[trigger] hay.subrange(i, i + needle.len())
            == needle
}

/// A line matches a pattern when the pattern occurs in it, both taken
/// through the same case folding.
pub open spec fn line_matches_spec(line: Seq<char>, pattern: Seq<char>, case_insensitive: bool) -> bool {
    contains_seq(fold_case(line, case_insensitive), fold_case(pattern, case_insensitive))
}

/// One character as it is compared.
pub fn fold_char(c: char, case_insensitive: bool) -> (r: char)
    ensures
        r == (if case_insensitive { ascii_lower(c) } else { c }),
{
    if case_insensitive && 'A' <= c && c <= 'Z' {
        ((c as u8) + 32) as char
    } else {
        c
    }
}

/// The characters of `s`, in order.
pub fn chars_of(s: &str) -> (r: Vec<char>)
    ensures
        r@ == s@,
{
    let mut r: Vec<char> = Vec::new();
    for c in it: s.chars()
        invariant
            it.seq() == s@,
            r@ == it.seq().take(it.index() as int),
    {
        r.push(c);
    }
    r
}

/// Whether `needle` occurs in `hay`, comparing characters through the same
/// case folding.
pub fn contains_folded(hay: &Vec<char>, needle: &Vec<char>, case_insensitive: bool) -> (r: bool)
    ensures
        r == contains_seq(fold_case(hay@, case_insensitive), fold_case(needle@, case_insensitive)),
{
    let ghost fh = fold_case(hay@, case_insensitive);
    let ghost fnd = fold_case(needle@, case_insensitive);
    let n = hay.len();
    let m = needle.len();
    if m > n {
        proof {
            assert forall|k: int| 0 <= k && k + fnd.len() <= fh.len() implies #[trigger] fh.subrange(k, k + fnd.len()) != fnd by {}
        }
        return false;
    }
    let mut i: usize = 0;
    while i <= n - m
        invariant
            n == hay@.len(),
            m == needle@.len(),
            m <= n,
            i <= n - m + 1,
            fh == fold_case(hay@, case_insensitive),
            fnd == fold_case(needle@, case_insensitive),
            fh.len() == n,
            fnd.len() == m,
            forall|k: int| 0 <= k < i ==> #[trigger] fh.subrange(k, k + m) != fnd,
        decreases n - m + 1 - i,
    {
        let mut j: usize = 0;
        let mut ok: bool = true;
        while j < m && ok
            invariant
                n == hay@.len(),
                m == needle@.len(),
                i + m <= n,
                j <= m,
                fh == fold_case(hay@, case_insensitive),
                fnd == fold_case(needle@, case_insensitive),
                fh.len() == n,
                fnd.len() == m,
                ok ==> forall|t: int| 0 <= t < j ==> fh[i + t] == fnd[t],
                !ok ==> j < m && fh[i + j] != fnd[j as int],
            decreases m - j + (if ok { 1int } else { 0int }),
        {
            if fold_char(hay[i + j], case_insensitive) != fold_char(needle[j], case_insensitive) {
                ok = false;
            } else {
                j = j + 1;
            }
        }
        if ok {
            assert(fh.subrange(i as int, i + m) =~= fnd);
            return true;
        }
        assert(fh.subrange(i as int, i + m)[j as int] != fnd[j as int]);
        i = i + 1;
    }
    proof {
        assert forall|k: int| 0 <= k && k + fnd.len() <= fh.len() implies #[trigger] fh.subrange(k, k + fnd.len()) != fnd by {}
    }
    false
}

/// Whether `pattern` occurs in `line`; with `case_insensitive`, ASCII
/// letters of both are compared without regard to case.
pub fn line_matches(line: &str, pattern: &str, case_insensitive: bool) -> (r: bool)
    ensures
        r == line_matches_spec(line@, pattern@, case_insensitive),
{
    let hay = chars_of(line);
    let needle = chars_of(pattern);
    contains_folded(&hay, &needle, case_insensitive)
}

/// Case-insensitive matching does not see ASCII case: lines that differ
/// only in the case of ASCII letters, searched with patterns that differ
/// only so, match alike.
pub proof fn law_case_insensitive(
    line_a: Seq<char>,
    line_b: Seq<char>,
    pattern_a: Seq<char>,
    pattern_b: Seq<char>,
)
    requires
        fold_case(line_a, true) == fold_case(line_b, true),
        fold_case(pattern_a, true) == fold_case(pattern_b, true),
    ensures
        line_matches_spec(line_a, pattern_a, true) == line_matches_spec(line_b, pattern_b, true),
{
}

/// Case-insensitive matching of a line is case-sensitive matching of the
/// ASCII-lowercased line against the ASCII-lowercased pattern.
pub proof fn law_case_insensitive_lowered(line: Seq<char>, pattern: Seq<char>)
    ensures
        line_matches_spec(line, pattern, true) == line_matches_spec(
            fold_case(line, true),
            fold_case(pattern, true),
            false,
        ),
{
}

} // verus!
