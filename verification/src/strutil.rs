//! Small executable helpers for moving between `&str`, `Vec<char>` and
//! `String`, used by the modules that build or inspect identifier text.

use vstd::prelude::*;
use vstd::string::*;

verus! {

/// Relies on std's `FromIterator<char> for String`: collecting characters
/// yields the string of exactly those characters in order.
#[verifier::external_body]
pub(crate) fn chars_to_string(v: Vec<char>) -> (r: String)
    ensures
        r@ == v@,
{
    v.into_iter().collect()
}

/// Whether `p` is a prefix of `h`.
pub open spec fn spec_starts_with(h: Seq<char>, p: Seq<char>) -> bool {
    h.len() >= p.len() && h.subrange(0, p.len() as int) == p
}

/// Whether `n` occurs contiguously inside `h`.
pub open spec fn spec_has_substring(h: Seq<char>, n: Seq<char>) -> bool {
    exists|i: int| 0 <= i <= h.len() - n.len() && #[trigger] h.subrange(i, i + n.len() as int) == n
}

/// Whether two string slices hold the same characters.
pub(crate) fn str_eq(a: &str, b: &str) -> (r: bool)
    ensures
        r == (a@ == b@),
{
    let sa = a.to_owned();
    let sb = b.to_owned();
    sa == sb
}

/// Copy the characters of a string slice into a vector.
pub(crate) fn str_chars(s: &str) -> (r: Vec<char>)
    ensures
        r@ == s@,
{
    let n = s.unicode_len();
    let mut out: Vec<char> = Vec::new();
    let mut i: usize = 0;
    while i < n
        invariant
            i <= n,
            n == s@.len(),
            out@ == s@.take(i as int),
        decreases n - i,
    {
        let c = s.get_char(i);
        out.push(c);
        proof {
            assert(s@.take((i + 1) as int) =~= s@.take(i as int).push(s@[i as int]));
        }
        i += 1;
    }
    proof {
        assert(s@.take(n as int) =~= s@);
    }
    out
}

/// Whether the characters of `h` start with those of `p`.
pub(crate) fn starts_with(h: &str, p: &str) -> (r: bool)
    ensures
        r == spec_starts_with(h@, p@),
{
    let hn = h.unicode_len();
    let pn = p.unicode_len();
    if hn < pn {
        return false;
    }
    let mut i: usize = 0;
    while i < pn
        invariant
            i <= pn,
            pn <= hn,
            hn == h@.len(),
            pn == p@.len(),
            forall|j: int| 0 <= j < i ==> h@[j] == p@[j],
        decreases pn - i,
    {
        if h.get_char(i) != p.get_char(i) {
            proof {
                assert(h@.subrange(0, p@.len() as int)[i as int] == h@[i as int]);
            }
            return false;
        }
        i += 1;
    }
    proof {
        assert(h@.subrange(0, p@.len() as int) =~= p@);
    }
    true
}

/// Whether the characters of `n` occur contiguously inside `h`.
pub(crate) fn contains_substr(h: &str, n: &str) -> (r: bool)
    ensures
        r == spec_has_substring(h@, n@),
{
    let hn = h.unicode_len();
    let nn = n.unicode_len();
    if nn > hn {
        return false;
    }
    let last = hn - nn;
    let mut i: usize = 0;
    while i <= last
        invariant
            i <= last + 1,
            last == hn - nn,
            nn <= hn,
            hn == h@.len(),
            nn == n@.len(),
            forall|s: int| 0 <= s < i ==> #[trigger] h@.subrange(s, s + n@.len() as int) != n@,
        decreases last + 1 - i,
    {
        let mut j: usize = 0;
        let mut matched = true;
        while j < nn && matched
            invariant
                j <= nn,
                i <= last,
                last == hn - nn,
                nn <= hn,
                hn == h@.len(),
                nn == n@.len(),
                matched ==> forall|m: int| 0 <= m < j ==> h@[i + m] == n@[m],
                !matched ==> h@.subrange(i as int, i + n@.len() as int) != n@,
            decreases nn - j + (if matched {
                1int
            } else {
                0int
            }),
        {
            if h.get_char(i + j) != n.get_char(j) {
                proof {
                    assert(h@.subrange(i as int, i + n@.len() as int)[j as int] == h@[i + j]);
                }
                matched = false;
            } else {
                j += 1;
            }
        }
        if matched {
            proof {
                assert(h@.subrange(i as int, i + n@.len() as int) =~= n@);
            }
            return true;
        }
        proof {
            if nn == 0 {
                assert(h@.subrange(i as int, i as int) =~= n@);
            }
        }
        i += 1;
    }
    false
}

pub open spec fn is_space(c: char) -> bool {
    c == ' ' || c == '\t' || c == '\r' || c == '\n'
}

/// A string with leading spaces removed.
pub open spec fn spec_trim_front(s: Seq<char>) -> Seq<char>
    decreases s.len(),
{
    if s.len() > 0 && is_space(s[0]) {
        spec_trim_front(s.drop_first())
    } else {
        s
    }
}

/// A string with trailing spaces removed.
pub open spec fn spec_trim_back(s: Seq<char>) -> Seq<char>
    decreases s.len(),
{
    if s.len() > 0 && is_space(s.last()) {
        spec_trim_back(s.drop_last())
    } else {
        s
    }
}

/// A string with surrounding spaces removed.
pub open spec fn spec_trim(s: Seq<char>) -> Seq<char> {
    spec_trim_back(spec_trim_front(s))
}

/// The comma-separated segments of a string: `cur` is the segment under
/// construction, `acc` the segments already cut.
pub open spec fn spec_split_rec(s: Seq<char>, cur: Seq<char>, acc: Seq<Seq<char>>) -> Seq<Seq<char>>
    decreases s.len(),
{
    if s.len() == 0 {
        acc.push(cur)
    } else if s[0] == ',' {
        spec_split_rec(s.drop_first(), Seq::empty(), acc.push(cur))
    } else {
        spec_split_rec(s.drop_first(), cur.push(s[0]), acc)
    }
}

/// The segments trimmed, with empties dropped.
pub open spec fn spec_clean_names(parts: Seq<Seq<char>>) -> Seq<Seq<char>>
    decreases parts.len(),
{
    if parts.len() == 0 {
        Seq::empty()
    } else {
        let rest = spec_clean_names(parts.drop_first());
        if spec_trim(parts[0]).len() > 0 {
            seq![spec_trim(parts[0])] + rest
        } else {
            rest
        }
    }
}

/// The names of a comma-separated list: each segment trimmed, empty
/// segments dropped.
pub open spec fn spec_csv_names(s: Seq<char>) -> Seq<Seq<char>> {
    spec_clean_names(spec_split_rec(s, Seq::empty(), Seq::empty()))
}

proof fn lemma_clean_names_snoc(parts: Seq<Seq<char>>, x: Seq<char>)
    ensures
        spec_clean_names(parts.push(x)) == if spec_trim(x).len() > 0 {
            spec_clean_names(parts).push(spec_trim(x))
        } else {
            spec_clean_names(parts)
        },
    decreases parts.len(),
{
    if parts.len() == 0 {
        assert(parts.push(x)[0] == x);
        assert(parts.push(x).drop_first() =~= Seq::<Seq<char>>::empty());
        assert(spec_clean_names(parts.push(x).drop_first()) =~= Seq::<Seq<char>>::empty());
        if spec_trim(x).len() > 0 {
            assert(spec_clean_names(parts.push(x)) =~~= spec_clean_names(parts).push(spec_trim(x)));
        } else {
            assert(spec_clean_names(parts.push(x)) =~~= spec_clean_names(parts));
        }
    } else {
        lemma_clean_names_snoc(parts.drop_first(), x);
        assert(parts.push(x)[0] == parts[0]);
        assert(parts.push(x).drop_first() =~= parts.drop_first().push(x));
        if spec_trim(x).len() > 0 {
            if spec_trim(parts[0]).len() > 0 {
                assert(spec_clean_names(parts.push(x)) =~~= spec_clean_names(parts).push(
                    spec_trim(x),
                ));
            } else {
                assert(spec_clean_names(parts.push(x)) =~~= spec_clean_names(parts).push(
                    spec_trim(x),
                ));
            }
        } else {
            assert(spec_clean_names(parts.push(x)) =~~= spec_clean_names(parts));
        }
    }
}

/// Remove surrounding spaces.
#[verifier::loop_isolation(false)]
fn trim_chars(cs: &Vec<char>) -> (r: Vec<char>)
    ensures
        r@ == spec_trim(cs@),
{
    let n = cs.len();
    let mut lo: usize = 0;
    proof {
        assert(cs@.skip(0) =~= cs@);
    }
    while lo < n && (cs[lo] == ' ' || cs[lo] == '\t' || cs[lo] == '\r' || cs[lo] == '\n')
        invariant
            lo <= n,
            n == cs@.len(),
            spec_trim_front(cs@) == spec_trim_front(cs@.skip(lo as int)),
        decreases n - lo,
    {
        proof {
            assert(cs@.skip(lo as int).drop_first() =~= cs@.skip(lo as int + 1));
            assert(cs@.skip(lo as int)[0] == cs@[lo as int]);
        }
        lo += 1;
    }
    proof {
        if lo < n {
            assert(cs@.skip(lo as int)[0] == cs@[lo as int]);
        }
        assert(spec_trim_front(cs@) =~= cs@.skip(lo as int));
    }
    let mut hi: usize = n;
    proof {
        assert(cs@.skip(lo as int).take(n - lo) =~= cs@.skip(lo as int));
    }
    while hi > lo && (cs[hi - 1] == ' ' || cs[hi - 1] == '\t' || cs[hi - 1] == '\r' || cs[hi - 1]
        == '\n')
        invariant
            lo <= hi <= n,
            n == cs@.len(),
            spec_trim_back(cs@.skip(lo as int)) == spec_trim_back(
                cs@.skip(lo as int).take(hi - lo),
            ),
        decreases hi,
    {
        proof {
            assert(cs@.skip(lo as int).take(hi - lo).drop_last() =~= cs@.skip(lo as int).take(
                hi - lo - 1,
            ));
            assert(cs@.skip(lo as int).take(hi - lo).last() == cs@[hi - 1]);
        }
        hi -= 1;
    }
    proof {
        if hi > lo {
            assert(cs@.skip(lo as int).take(hi - lo).last() == cs@[hi - 1]);
        }
        assert(spec_trim_back(cs@.skip(lo as int)) =~= cs@.skip(lo as int).take(hi - lo));
    }
    let mut out: Vec<char> = Vec::new();
    let mut i: usize = lo;
    while i < hi
        invariant
            lo <= i <= hi <= n,
            n == cs@.len(),
            out@ == cs@.skip(lo as int).take(i - lo),
        decreases hi - i,
    {
        out.push(cs[i]);
        proof {
            assert(cs@.skip(lo as int).take(i - lo + 1) =~= cs@.skip(lo as int).take(i - lo).push(
                cs@[i as int],
            ));
        }
        i += 1;
    }
    out
}

/// Split a comma-separated list into its trimmed, non-empty names.
#[verifier::loop_isolation(false)]
pub fn split_csv_names(s: &str) -> (r: Vec<String>)
    ensures
        crate::resolved::view_strs(r@) == spec_csv_names(s@),
{
    let cs = str_chars(s);
    let n = cs.len();
    let mut out: Vec<String> = Vec::new();
    let mut cur: Vec<char> = Vec::new();
    let ghost mut acc: Seq<Seq<char>> = Seq::empty();
    let mut i: usize = 0;
    proof {
        assert(s@.skip(0) =~= s@);
        assert(crate::resolved::view_strs(out@) =~= Seq::<Seq<char>>::empty());
    }
    while i < n
        invariant
            i <= n,
            n == cs@.len(),
            cs@ == s@,
            crate::resolved::view_strs(out@) == spec_clean_names(acc),
            spec_csv_names(s@) == spec_clean_names(
                spec_split_rec(s@.skip(i as int), cur@, acc),
            ),
        decreases n - i,
    {
        proof {
            assert(s@.skip(i as int).drop_first() =~= s@.skip(i as int + 1));
            assert(s@.skip(i as int)[0] == s@[i as int]);
        }
        let c = cs[i];
        if c == ',' {
            let trimmed = trim_chars(&cur);
            if trimmed.len() > 0 {
                out.push(chars_to_string(trimmed));
            }
            proof {
                lemma_clean_names_snoc(acc, cur@);
                assert(crate::resolved::view_strs(out@) =~= spec_clean_names(acc.push(cur@)));
            }
            proof {
                acc = acc.push(cur@);
            }
            cur = Vec::new();
        } else {
            cur.push(c);
        }
        i += 1;
    }
    proof {
        assert(s@.skip(n as int) =~= Seq::<char>::empty());
    }
    let trimmed = trim_chars(&cur);
    if trimmed.len() > 0 {
        out.push(chars_to_string(trimmed));
    }
    proof {
        lemma_clean_names_snoc(acc, cur@);
        assert(crate::resolved::view_strs(out@) =~= spec_clean_names(acc.push(cur@)));
    }
    out
}

/// Whether a character occurs in the string.
pub(crate) fn contains_char(s: &str, c: char) -> (r: bool)
    ensures
        r == s@.contains(c),
{
    let n = s.unicode_len();
    let mut i: usize = 0;
    while i < n
        invariant
            i <= n,
            n == s@.len(),
            forall|j: int| 0 <= j < i ==> s@[j] != c,
        decreases n - i,
    {
        if s.get_char(i) == c {
            proof {
                assert(s@[i as int] == c);
            }
            return true;
        }
        i += 1;
    }
    proof {
        assert(!s@.contains(c)) by {
            if s@.contains(c) {
                let j = choose|j: int| 0 <= j < s@.len() && s@[j] == c;
                assert(s@[j] != c);
            }
        }
    }
    false
}

} // verus!
