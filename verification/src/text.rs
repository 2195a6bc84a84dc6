//! Verified character and string utilities.
//!
//! Everything here operates on `&str` through its `Seq<char>` view; each
//! executable function is pinned to a spec-level mirror, so callers reason
//! purely over character sequences.

use vstd::prelude::*;

verus! {

/// The Unicode `White_Space` code points, the set that `char::is_whitespace`
/// recognises.
pub open spec fn is_space_char(c: char) -> bool {
    let u = c as u32;
    u == 0x9 || u == 0xa || u == 0xb || u == 0xc || u == 0xd || u == 0x20 || u == 0x85
        || u == 0xa0 || u == 0x1680 || (0x2000 <= u && u <= 0x200a) || u == 0x2028 || u == 0x2029
        || u == 0x202f || u == 0x205f || u == 0x3000
}

pub fn char_is_space(c: char) -> (b: bool)
    ensures
        b == is_space_char(c),
{
    let u = c as u32;
    u == 0x9 || u == 0xa || u == 0xb || u == 0xc || u == 0xd || u == 0x20 || u == 0x85
        || u == 0xa0 || u == 0x1680 || (0x2000 <= u && u <= 0x200a) || u == 0x2028 || u == 0x2029
        || u == 0x202f || u == 0x205f || u == 0x3000
}

/// The sequence with all leading whitespace removed.
pub open spec fn spec_trim_start(s: Seq<char>) -> Seq<char>
    decreases s.len(),
{
    if s.len() == 0 {
        s
    } else if is_space_char(s[0]) {
        spec_trim_start(s.drop_first())
    } else {
        s
    }
}

/// The sequence with all trailing whitespace removed.
pub open spec fn spec_trim_end(s: Seq<char>) -> Seq<char>
    decreases s.len(),
{
    if s.len() == 0 {
        s
    } else if is_space_char(s.last()) {
        spec_trim_end(s.drop_last())
    } else {
        s
    }
}

/// The sequence with both leading and trailing whitespace removed.
pub open spec fn spec_trim(s: Seq<char>) -> Seq<char> {
    spec_trim_end(spec_trim_start(s))
}

proof fn lemma_trim_start_skip(s: Seq<char>, i: int)
    requires
        0 <= i <= s.len(),
        forall|k: int| 0 <= k < i ==> is_space_char(s[k]),
    ensures
        spec_trim_start(s) == spec_trim_start(s.skip(i)),
    decreases i,
{
    if i > 0 {
        assert(is_space_char(s[0]));
        let t = s.skip(1);
        assert(s.drop_first() =~= t);
        assert(forall|k: int| 0 <= k < i - 1 ==> is_space_char(t[k]));
        lemma_trim_start_skip(t, i - 1);
        assert(t.skip(i - 1) =~= s.skip(i));
    } else {
        assert(s.skip(0) =~= s);
    }
}

/// `str::trim_start`: drop leading whitespace.
pub fn trim_start(s: &str) -> (r: &str)
    ensures
        r@ == spec_trim_start(s@),
{
    let n = s.unicode_len();
    let mut i: usize = 0;
    while i < n && char_is_space(s.get_char(i))
        invariant
            0 <= i <= n,
            n == s@.len(),
            forall|k: int| 0 <= k < i ==> is_space_char(s@[k]),
        decreases n - i,
    {
        i = i + 1;
    }
    proof {
        lemma_trim_start_skip(s@, i as int);
        if i < n {
            assert(s@.skip(i as int)[0] == s@[i as int]);
            assert(!is_space_char(s@.skip(i as int)[0]));
        }
        assert(spec_trim_start(s@.skip(i as int)) == s@.skip(i as int));
        assert(s@.subrange(i as int, n as int) =~= s@.skip(i as int));
    }
    s.substring_char(i, n)
}

proof fn lemma_trim_end_take(s: Seq<char>, j: int)
    requires
        0 <= j <= s.len(),
        forall|k: int| j <= k < s.len() ==> is_space_char(s[k]),
    ensures
        spec_trim_end(s) == spec_trim_end(s.take(j)),
    decreases s.len() - j,
{
    if j < s.len() {
        assert(is_space_char(s.last()));
        assert(s.drop_last() =~= s.take(s.len() - 1));
        let t = s.take(s.len() - 1);
        assert(forall|k: int| j <= k < t.len() ==> is_space_char(t[k]));
        lemma_trim_end_take(t, j);
        assert(t.take(j) =~= s.take(j));
    } else {
        assert(s.take(j) =~= s);
    }
}

/// `str::trim_end`: drop trailing whitespace.
pub fn trim_end(s: &str) -> (r: &str)
    ensures
        r@ == spec_trim_end(s@),
{
    let n = s.unicode_len();
    let mut j: usize = n;
    while j > 0 && char_is_space(s.get_char(j - 1))
        invariant
            0 <= j <= n,
            n == s@.len(),
            forall|k: int| j <= k < n ==> is_space_char(s@[k]),
        decreases j,
    {
        j = j - 1;
    }
    proof {
        lemma_trim_end_take(s@, j as int);
        let t = s@.take(j as int);
        if j > 0 {
            assert(t.last() == s@[j - 1]);
            assert(!is_space_char(t.last()));
        }
        assert(spec_trim_end(t) == t);
        assert(s@.subrange(0, j as int) =~= t);
    }
    s.substring_char(0, j)
}

/// `str::trim`: drop whitespace on both ends.
pub fn trim(s: &str) -> (r: &str)
    ensures
        r@ == spec_trim(s@),
{
    trim_end(trim_start(s))
}

/// `pat` occurs in `s` starting at position `i`.
pub open spec fn spec_match_at(s: Seq<char>, pat: Seq<char>, i: int) -> bool {
    0 <= i && i + pat.len() <= s.len() && s.subrange(i, i + pat.len()) == pat
}

pub fn match_at(s: &str, pat: &str, i: usize) -> (b: bool)
    ensures
        b == spec_match_at(s@, pat@, i as int),
{
    let n = s.unicode_len();
    let m = pat.unicode_len();
    if i > n || m > n - i {
        return false;
    }
    let mut j: usize = 0;
    while j < m
        invariant
            0 <= j <= m,
            i + m <= n,
            n == s@.len(),
            m == pat@.len(),
            forall|k: int| 0 <= k < j ==> s@[i + k] == pat@[k],
        decreases m - j,
    {
        if s.get_char(i + j) != pat.get_char(j) {
            proof {
                assert(s@.subrange(i as int, i + m)[j as int] == s@[i + j]);
            }
            return false;
        }
        j = j + 1;
    }
    proof {
        assert(s@.subrange(i as int, i + m) =~= pat@);
    }
    true
}

/// Character-for-character equality of two string slices.
pub fn str_eq(a: &str, b: &str) -> (r: bool)
    ensures
        r == (a@ == b@),
{
    let n = a.unicode_len();
    if n != b.unicode_len() {
        return false;
    }
    let mut i: usize = 0;
    while i < n
        invariant
            0 <= i <= n,
            n == a@.len(),
            n == b@.len(),
            forall|k: int| 0 <= k < i ==> a@[k] == b@[k],
        decreases n - i,
    {
        if a.get_char(i) != b.get_char(i) {
            return false;
        }
        i = i + 1;
    }
    proof {
        assert(a@ =~= b@);
    }
    true
}

/// `pat` occurs somewhere in `s`.
pub open spec fn spec_contains(s: Seq<char>, pat: Seq<char>) -> bool {
    exists|i: int| spec_match_at(s, pat, i)
}

pub fn contains_str(s: &str, pat: &str) -> (b: bool)
    ensures
        b == spec_contains(s@, pat@),
{
    let n = s.unicode_len();
    let m = pat.unicode_len();
    if m > n {
        proof {
            assert(forall|i: int| !spec_match_at(s@, pat@, i));
        }
        return false;
    }
    if m == 0 {
        proof {
            assert(s@.subrange(0, 0) =~= pat@);
            assert(spec_match_at(s@, pat@, 0));
        }
        return true;
    }
    let mut i: usize = 0;
    while i <= n - m
        invariant
            0 <= i <= n - m + 1,
            0 < m <= n,
            n == s@.len(),
            m == pat@.len(),
            forall|k: int| 0 <= k < i ==> !spec_match_at(s@, pat@, k),
        decreases n - i,
    {
        if match_at(s, pat, i) {
            return true;
        }
        i = i + 1;
    }
    proof {
        assert forall|k: int| !spec_match_at(s@, pat@, k) by {
            if 0 <= k < i {
            } else {
                assert(k < 0 || k + pat@.len() > s@.len());
            }
        }
    }
    false
}

/// `s` without the prefix `pat`, or `s` itself where the prefix is absent.
pub open spec fn spec_strip_prefix(s: Seq<char>, pat: Seq<char>) -> Seq<char> {
    if spec_match_at(s, pat, 0) {
        s.skip(pat.len() as int)
    } else {
        s
    }
}

pub fn strip_prefix_else(s: &str, pat: &str) -> (r: String)
    ensures
        r@ == spec_strip_prefix(s@, pat@),
{
    let n = s.unicode_len();
    let m = pat.unicode_len();
    if match_at(s, pat, 0) {
        let rest = s.substring_char(m, n);
        proof {
            assert(s@.subrange(m as int, n as int) =~= s@.skip(m as int));
        }
        String::from_str(rest)
    } else {
        String::from_str(s)
    }
}

/// `s` without the suffix `pat`, or `s` itself where the suffix is absent.
pub open spec fn spec_strip_suffix(s: Seq<char>, pat: Seq<char>) -> Seq<char> {
    if pat.len() <= s.len() && spec_match_at(s, pat, s.len() - pat.len()) {
        s.take(s.len() - pat.len())
    } else {
        s
    }
}

pub fn strip_suffix_else(s: &str, pat: &str) -> (r: String)
    ensures
        r@ == spec_strip_suffix(s@, pat@),
{
    let n = s.unicode_len();
    let m = pat.unicode_len();
    if m <= n && match_at(s, pat, n - m) {
        let rest = s.substring_char(0, n - m);
        proof {
            assert(s@.subrange(0, n - m) =~= s@.take(n - m));
        }
        String::from_str(rest)
    } else {
        String::from_str(s)
    }
}

/// `s` with every non-overlapping occurrence of `pat`, scanned left to
/// right, replaced by `rep` (the semantics of `str::replace`).
pub open spec fn spec_replace(s: Seq<char>, pat: Seq<char>, rep: Seq<char>) -> Seq<char>
    decreases s.len(),
    when pat.len() > 0
{
    if s.len() == 0 {
        Seq::empty()
    } else if spec_match_at(s, pat, 0) {
        rep + spec_replace(s.skip(pat.len() as int), pat, rep)
    } else {
        seq![s[0]] + spec_replace(s.drop_first(), pat, rep)
    }
}

pub fn replace_all(s: &str, pat: &str, rep: &str) -> (r: String)
    requires
        pat@.len() > 0,
    ensures
        r@ == spec_replace(s@, pat@, rep@),
{
    let n = s.unicode_len();
    let m = pat.unicode_len();
    let mut out = String::new();
    let mut i: usize = 0;
    proof {
        assert(s@.skip(0) =~= s@);
        assert(Seq::<char>::empty() + spec_replace(s@, pat@, rep@) =~= spec_replace(
            s@,
            pat@,
            rep@,
        ));
    }
    while i < n
        invariant
            0 <= i <= n,
            n == s@.len(),
            m == pat@.len(),
            m > 0,
            spec_replace(s@, pat@, rep@) == out@ + spec_replace(
                s@.skip(i as int),
                pat@,
                rep@,
            ),
        decreases n - i,
    {
        let ghost t = s@.skip(i as int);
        if match_at(s, pat, i) {
            out.append(rep);
            proof {
                assert(t.subrange(0, m as int) =~= s@.subrange(i as int, i + m));
                assert(spec_match_at(t, pat@, 0));
                assert(spec_replace(t, pat@, rep@) == rep@ + spec_replace(
                    t.skip(m as int),
                    pat@,
                    rep@,
                ));
                assert(t.skip(m as int) =~= s@.skip(i + m));
                assert((out@ + rep@) + spec_replace(s@.skip(i + m), pat@, rep@) =~= out@ + (rep@
                    + spec_replace(s@.skip(i + m), pat@, rep@)));
            }
            i = i + m;
        } else {
            let c = s.substring_char(i, i + 1);
            out.append(c);
            proof {
                assert(t.len() > 0);
                if i + m <= n {
                    assert(t.subrange(0, m as int) =~= s@.subrange(i as int, i + m));
                }
                assert(!spec_match_at(t, pat@, 0));
                assert(spec_replace(t, pat@, rep@) == seq![t[0]] + spec_replace(
                    t.drop_first(),
                    pat@,
                    rep@,
                ));
                assert(c@ =~= seq![t[0]]);
                assert(t.drop_first() =~= s@.skip(i + 1));
                assert((out@ + c@) + spec_replace(s@.skip(i + 1), pat@, rep@) =~= out@ + (c@
                    + spec_replace(s@.skip(i + 1), pat@, rep@)));
            }
            i = i + 1;
        }
    }
    proof {
        assert(s@.skip(n as int) =~= Seq::<char>::empty());
        assert(spec_replace(Seq::<char>::empty(), pat@, rep@) == Seq::<char>::empty());
        assert(out@ + Seq::<char>::empty() =~= out@);
    }
    out
}

/// The view of each string in a sequence of strings.
pub open spec fn str_views(ss: Seq<String>) -> Seq<Seq<char>> {
    ss.map_values(|x: String| x@)
}

/// The concatenation of a sequence of character sequences, in order.
pub open spec fn spec_concat(ts: Seq<Seq<char>>) -> Seq<char>
    decreases ts.len(),
{
    if ts.len() == 0 {
        Seq::empty()
    } else {
        ts[0] + spec_concat(ts.drop_first())
    }
}

pub fn concat_texts(v: &Vec<String>) -> (r: String)
    ensures
        r@ == spec_concat(str_views(v@)),
{
    let ghost ts = str_views(v@);
    let mut out = String::new();
    let mut i: usize = 0;
    proof {
        assert(ts.skip(0) =~= ts);
        assert(Seq::<char>::empty() + spec_concat(ts) =~= spec_concat(ts));
    }
    while i < v.len()
        invariant
            0 <= i <= v.len(),
            ts == str_views(v@),
            ts.len() == v@.len(),
            spec_concat(ts) == out@ + spec_concat(ts.skip(i as int)),
        decreases v.len() - i,
    {
        out.append(v[i].as_str());
        proof {
            let t = ts.skip(i as int);
            assert(t[0] == ts[i as int]);
            assert(ts[i as int] == v@[i as int]@);
            assert(t.drop_first() =~= ts.skip(i + 1));
            assert(spec_concat(t) == t[0] + spec_concat(t.drop_first()));
            assert((out@ + v@[i as int]@) + spec_concat(ts.skip(i + 1)) =~= out@ + (v@[i as int]@
                + spec_concat(ts.skip(i + 1))));
        }
        i = i + 1;
    }
    proof {
        assert(ts.skip(v@.len() as int) =~= Seq::<Seq<char>>::empty());
        assert(out@ + Seq::<char>::empty() =~= out@);
    }
    out
}

/// An ASCII decimal digit.
pub open spec fn is_digit_char(c: char) -> bool {
    0x30 <= c as u32 && c as u32 <= 0x39
}

/// The numeric value of an ASCII decimal digit.
pub open spec fn digit_val(c: char) -> int {
    c as u32 - 0x30
}

pub open spec fn all_digits(s: Seq<char>) -> bool {
    forall|i: int| 0 <= i < s.len() ==> is_digit_char(s[i])
}

/// The value of a digit string read in base ten.
pub open spec fn digits_val(s: Seq<char>) -> int
    decreases s.len(),
{
    if s.len() == 0 {
        0
    } else {
        digits_val(s.drop_last()) * 10 + digit_val(s.last())
    }
}

proof fn lemma_digits_val_nonneg(s: Seq<char>)
    requires
        all_digits(s),
    ensures
        digits_val(s) >= 0,
    decreases s.len(),
{
    if s.len() > 0 {
        assert(all_digits(s.drop_last()));
        lemma_digits_val_nonneg(s.drop_last());
        assert(is_digit_char(s.last()));
    }
}

/// The result of `str::parse::<i32>`: an optional sign, then one or more
/// decimal digits and nothing else, with the value inside the `i32` range.
pub open spec fn spec_parse_i32(s: Seq<char>) -> Option<int> {
    if s.len() == 0 {
        None
    } else {
        let negative = s[0] == '-';
        let body = if s[0] == '-' || s[0] == '+' {
            s.drop_first()
        } else {
            s
        };
        if body.len() == 0 || !all_digits(body) {
            None
        } else {
            let v = if negative {
                -digits_val(body)
            } else {
                digits_val(body)
            };
            if -2147483648 <= v && v <= 2147483647 {
                Some(v)
            } else {
                None
            }
        }
    }
}

pub fn parse_i32_opt(s: &str) -> (r: Option<i32>)
    ensures
        (r is Some) == (spec_parse_i32(s@) is Some),
        r matches Some(v) ==> spec_parse_i32(s@) == Some(v as int),
{
    let n = s.unicode_len();
    if n == 0 {
        return None;
    }
    let c0 = s.get_char(0);
    let negative = c0 == '-';
    let start: usize = if c0 == '-' || c0 == '+' {
        1
    } else {
        0
    };
    let ghost body = if c0 == '-' || c0 == '+' {
        s@.drop_first()
    } else {
        s@
    };
    proof {
        assert(body =~= s@.subrange(start as int, n as int));
    }
    if start >= n {
        return None;
    }
    // Accumulate capped just above the `i32` magnitude bound so the exact
    // value is kept whenever it can still be in range.
    let mut acc: u64 = 0;
    let mut i: usize = start;
    while i < n
        invariant
            start <= i <= n,
            n == s@.len(),
            0 < n,
            start < n,
            start <= 1,
            (start == 1) == (s@[0] == '-' || s@[0] == '+'),
            body == s@.subrange(start as int, n as int),
            all_digits(s@.subrange(start as int, i as int)),
            digits_val(s@.subrange(start as int, i as int)) <= 2147483648 ==> acc == digits_val(
                s@.subrange(start as int, i as int),
            ),
            digits_val(s@.subrange(start as int, i as int)) > 2147483648 ==> acc == 2147483649,
            acc <= 2147483649,
        decreases n - i,
    {
        let c = s.get_char(i);
        let u = c as u32;
        let ghost prefix = s@.subrange(start as int, i as int);
        proof {
            lemma_digits_val_nonneg(prefix);
        }
        if u < 0x30 || u > 0x39 {
            proof {
                assert(body[i - start] == s@[i as int]);
                assert(!is_digit_char(body[i - start]));
                assert(!all_digits(body));
                assert(s@.drop_first() =~= s@.subrange(1, n as int));
                assert(s@.subrange(0, n as int) =~= s@);
                assert(spec_parse_i32(s@) is None);
            }
            return None;
        }
        let d = (u - 0x30) as u64;
        acc = acc * 10 + d;
        if acc > 2147483648 {
            acc = 2147483649;
        }
        proof {
            let prefix2 = s@.subrange(start as int, i + 1);
            assert(prefix2.drop_last() =~= prefix);
            assert(prefix2.last() == s@[i as int]);
            assert(digits_val(prefix2) == digits_val(prefix) * 10 + digit_val(s@[i as int]));
        }
        i = i + 1;
    }
    proof {
        assert(s@.subrange(start as int, n as int) =~= body);
        assert(all_digits(body));
        lemma_digits_val_nonneg(body);
    }
    if negative {
        if acc > 2147483648 {
            proof {
                assert(digits_val(body) > 2147483648);
                assert(spec_parse_i32(s@) is None);
            }
            return None;
        }
        proof {
            assert(acc == digits_val(body));
        }
        let x = acc as i64;
        Some((-x) as i32)
    } else {
        if acc > 2147483647 {
            proof {
                assert(digits_val(body) > 2147483647);
                assert(spec_parse_i32(s@) is None);
            }
            return None;
        }
        proof {
            assert(acc == digits_val(body));
        }
        Some(acc as i32)
    }
}

} // verus!
