//! Line-level scanning: splitting a stream into lines, stripping trailing
//! comments, trimming whitespace, and prefix tests, each with its exact
//! mathematical model.

use vstd::prelude::*;

use crate::chars::is_space;
use crate::chars::spec_is_space;

verus! {

/// Index of the first `'\n'` at or after `i`, or the length if there is none.
pub open spec fn spec_find_nl(s: Seq<char>, i: int) -> int
    decreases s.len() - i,
{
    if !(0 <= i < s.len()) {
        s.len() as int
    } else if s[i] == '\n' {
        i
    } else {
        spec_find_nl(s, i + 1)
    }
}

/// The lines of a stream starting at `i`: each line keeps its `'\n'`; the
/// last piece may lack one. The empty stream has no lines.
pub open spec fn spec_lines_from(s: Seq<char>, i: int) -> Seq<Seq<char>>
    decreases s.len() - i,
{
    if !(0 <= i < s.len()) {
        Seq::empty()
    } else {
        let e0 = spec_find_nl(s, i) + 1;
        let e = if e0 < i + 1 {
            i + 1
        } else if e0 > s.len() {
            s.len() as int
        } else {
            e0
        };
        seq![s.subrange(i, e)] + spec_lines_from(s, e)
    }
}

/// The lines of a stream, as successive reads of a line reader yield them.
pub open spec fn spec_lines(s: Seq<char>) -> Seq<Seq<char>> {
    spec_lines_from(s, 0)
}

/// The line terminator a line ends with: `"\r\n"`, `"\n"`, or nothing.
pub open spec fn spec_term(line: Seq<char>) -> Seq<char> {
    if line.len() >= 2 && line[line.len() - 2] == '\r' && line[line.len() - 1] == '\n' {
        seq!['\r', '\n']
    } else if line.len() >= 1 && line[line.len() - 1] == '\n' {
        seq!['\n']
    } else {
        Seq::empty()
    }
}

/// The line without its terminator.
pub open spec fn spec_body(line: Seq<char>) -> Seq<char> {
    line.take(line.len() - spec_term(line).len())
}

/// Index of the first `"//"` at or after `i`, or the length if there is none.
pub open spec fn spec_find_comment(s: Seq<char>, i: int) -> int
    decreases s.len() - i,
{
    if !(0 <= i) || i + 1 >= s.len() {
        s.len() as int
    } else if s[i] == '/' && s[i + 1] == '/' {
        i
    } else {
        spec_find_comment(s, i + 1)
    }
}

/// Everything before the first `"//"`.
pub open spec fn spec_before_comment(s: Seq<char>) -> Seq<char> {
    let e = spec_find_comment(s, 0);
    if 0 <= e <= s.len() {
        s.take(e)
    } else {
        s
    }
}

/// Index of the first non-whitespace character at or after `i`, or the
/// length.
pub open spec fn spec_skip_ws(s: Seq<char>, i: int) -> int
    decreases s.len() - i,
{
    if !(0 <= i < s.len()) {
        s.len() as int
    } else if spec_is_space(s[i]) {
        spec_skip_ws(s, i + 1)
    } else {
        i
    }
}

/// One past the last non-whitespace character, or 0 for all-whitespace.
pub open spec fn spec_rtrim_end(s: Seq<char>) -> int
    decreases s.len(),
{
    if s.len() == 0 {
        0
    } else if spec_is_space(s.last()) {
        spec_rtrim_end(s.drop_last())
    } else {
        s.len() as int
    }
}

/// The string with surrounding whitespace removed.
pub open spec fn spec_trim(s: Seq<char>) -> Seq<char> {
    let a = spec_skip_ws(s, 0);
    let b = spec_rtrim_end(s);
    if 0 <= a <= b <= s.len() {
        s.subrange(a, b)
    } else {
        Seq::empty()
    }
}

/// `p` is a prefix of `s`.
pub open spec fn spec_starts_with(s: Seq<char>, p: Seq<char>) -> bool {
    p.len() <= s.len() && s.subrange(0, p.len() as int) == p
}

/// Split a stream into its lines.
pub fn split_lines(s: &str) -> (r: Vec<String>)
    ensures
        r.deep_view() == spec_lines(s@),
{
    let n = s.unicode_len();
    let mut r: Vec<String> = Vec::new();
    proof {
        assert(r.deep_view() =~= Seq::<Seq<char>>::empty());
    }
    let mut i: usize = 0;
    while i < n
        invariant
            i <= n,
            n == s@.len(),
            spec_lines(s@) == r.deep_view() + spec_lines_from(s@, i as int),
        decreases n - i,
    {
        let mut j: usize = i;
        while j < n && s.get_char(j) != '\n'
            invariant
                i <= j <= n,
                n == s@.len(),
                spec_find_nl(s@, i as int) == spec_find_nl(s@, j as int),
            decreases n - j,
        {
            j = j + 1;
        }
        let e = if j < n {
            j + 1
        } else {
            j
        };
        proof {
            assert(spec_find_nl(s@, j as int) == if j < n {
                j as int
            } else {
                n as int
            });
        }
        let line = String::from_str(s.substring_char(i, e));
        let ghost prev = r.deep_view();
        r.push(line);
        proof {
            assert(r.deep_view() =~= prev.push(s@.subrange(i as int, e as int)));
            assert(prev.push(s@.subrange(i as int, e as int)) =~= prev + seq![
                s@.subrange(i as int, e as int),
            ]);
            assert(spec_lines_from(s@, i as int) == seq![s@.subrange(i as int, e as int)]
                + spec_lines_from(s@, e as int));
            assert(r.deep_view() + spec_lines_from(s@, e as int) =~= (prev + (seq![
                s@.subrange(i as int, e as int),
            ] + spec_lines_from(s@, e as int))));
        }
        i = e;
    }
    proof {
        assert(spec_lines_from(s@, i as int) =~= Seq::<Seq<char>>::empty());
        assert(r.deep_view() + Seq::<Seq<char>>::empty() =~= r.deep_view());
    }
    r
}

/// Split a line into its body and its terminator.
pub fn body_and_term<'a>(line: &'a str) -> (r: (&'a str, &'static str))
    ensures
        r.0@ == spec_body(line@),
        r.1@ == spec_term(line@),
{
    let n = line.unicode_len();
    proof {
        reveal_strlit("\r\n");
        reveal_strlit("\n");
        reveal_strlit("");
    }
    if n >= 2 && line.get_char(n - 2) == '\r' && line.get_char(n - 1) == '\n' {
        (line.substring_char(0, n - 2), "\r\n")
    } else if n >= 1 && line.get_char(n - 1) == '\n' {
        (line.substring_char(0, n - 1), "\n")
    } else {
        proof {
            assert(line@.take(n as int) =~= line@);
        }
        (line, "")
    }
}

/// The part of a line before its first `"//"`.
pub fn before_comment<'a>(s: &'a str) -> (r: &'a str)
    ensures
        r@ == spec_before_comment(s@),
{
    let n = s.unicode_len();
    let mut i: usize = 0;
    while i < n && i + 1 < n && !(s.get_char(i) == '/' && s.get_char(i + 1) == '/')
        invariant
            i <= n,
            n == s@.len(),
            spec_find_comment(s@, 0) == spec_find_comment(s@, i as int),
        decreases n - i,
    {
        i = i + 1;
    }
    if i < n && i + 1 < n {
        s.substring_char(0, i)
    } else {
        proof {
            assert(spec_find_comment(s@, i as int) == n as int);
            assert(s@.take(n as int) =~= s@);
        }
        s
    }
}

/// Trim surrounding whitespace.
pub fn trim_str<'a>(s: &'a str) -> (r: &'a str)
    ensures
        r@ == spec_trim(s@),
{
    let n = s.unicode_len();
    let mut a: usize = 0;
    while a < n && is_space(s.get_char(a))
        invariant
            a <= n,
            n == s@.len(),
            spec_skip_ws(s@, 0) == spec_skip_ws(s@, a as int),
        decreases n - a,
    {
        a = a + 1;
    }
    proof {
        assert(spec_skip_ws(s@, a as int) == a as int);
    }
    let mut b: usize = n;
    proof {
        assert(s@.take(n as int) =~= s@);
    }
    while b > 0 && is_space(s.get_char(b - 1))
        invariant
            b <= n,
            n == s@.len(),
            spec_rtrim_end(s@) == spec_rtrim_end(s@.take(b as int)),
        decreases b,
    {
        proof {
            assert(s@.take(b as int).drop_last() =~= s@.take(b - 1));
            assert(s@.take(b as int).last() == s@[b - 1]);
        }
        b = b - 1;
    }
    proof {
        if b > 0 {
            assert(s@.take(b as int).last() == s@[b - 1]);
        }
        assert(spec_rtrim_end(s@.take(b as int)) == b as int);
    }
    if a < b {
        s.substring_char(a, b)
    } else {
        proof {
            assert(spec_trim(s@) =~= Seq::<char>::empty());
        }
        s.substring_char(0, 0)
    }
}

/// Does `s` start with `p`?
pub fn starts_with_str(s: &str, p: &str) -> (r: bool)
    ensures
        r == spec_starts_with(s@, p@),
{
    let n = s.unicode_len();
    let m = p.unicode_len();
    if m > n {
        return false;
    }
    let mut k: usize = 0;
    while k < m
        invariant
            k <= m,
            m <= n,
            n == s@.len(),
            m == p@.len(),
            forall|q: int| 0 <= q < k ==> s@[q] == p@[q],
        decreases m - k,
    {
        if s.get_char(k) != p.get_char(k) {
            proof {
                assert(s@.subrange(0, m as int)[k as int] != p@[k as int]);
            }
            return false;
        }
        k = k + 1;
    }
    proof {
        assert(s@.subrange(0, m as int) =~= p@);
    }
    true
}

/// Are the two strings equal?
pub fn str_eq(s: &str, p: &str) -> (r: bool)
    ensures
        r == (s@ == p@),
{
    let n = s.unicode_len();
    let m = p.unicode_len();
    if m != n {
        return false;
    }
    let r = starts_with_str(s, p);
    proof {
        if r {
            assert(s@.subrange(0, m as int) =~= s@);
        } else {
            assert(!(s@ == p@)) by {
                if s@ == p@ {
                    assert(s@.subrange(0, m as int) =~= p@);
                }
            }
        }
    }
    r
}

} // verus!
