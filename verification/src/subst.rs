//! Whole-token macro substitution: a line is cut at every boundary where the
//! character class (name character or not) flips, and each maximal run that
//! names a macro is replaced by the macro's value.

use vstd::prelude::*;

use crate::chars::is_define_char;
use crate::chars::spec_is_define_char;

verus! {

/// The table of macro definitions as a mathematical value: the sequence of
/// `(name, value)` pairs, in definition order.
pub open spec fn defs_view(es: Seq<(String, String)>) -> Seq<(Seq<char>, Seq<char>)> {
    Seq::new(es.len(), |i: int| (es[i].0@, es[i].1@))
}

/// The value a macro table gives to `name`: the latest definition wins.
pub open spec fn spec_macro(ds: Seq<(Seq<char>, Seq<char>)>, name: Seq<char>) -> Option<Seq<char>>
    decreases ds.len(),
{
    if ds.len() == 0 {
        None
    } else if ds.last().0 == name {
        Some(ds.last().1)
    } else {
        spec_macro(ds.drop_last(), name)
    }
}

/// End of the maximal run of characters of class `cls` starting at `i`.
pub open spec fn spec_run_end(s: Seq<char>, i: int, cls: bool) -> int
    decreases s.len() - i,
{
    if !(0 <= i < s.len()) {
        s.len() as int
    } else if spec_is_define_char(s[i]) != cls {
        i
    } else {
        spec_run_end(s, i + 1, cls)
    }
}

/// The substituted text from position `i` on: the next maximal run is looked
/// up in the table (replaced by its value if it is a macro name, kept
/// otherwise), and the rest follows.
pub open spec fn spec_subst_from(ds: Seq<(Seq<char>, Seq<char>)>, s: Seq<char>, i: int) -> Seq<char>
    decreases s.len() - i,
{
    if !(0 <= i < s.len()) {
        Seq::empty()
    } else {
        let e0 = spec_run_end(s, i + 1, spec_is_define_char(s[i]));
        let e = if e0 < i + 1 {
            i + 1
        } else if e0 > s.len() {
            s.len() as int
        } else {
            e0
        };
        let part = s.subrange(i, e);
        (match spec_macro(ds, part) {
            Some(v) => v,
            None => part,
        }) + spec_subst_from(ds, s, e)
    }
}

/// The result of substituting all macros of `ds` in `s`.
pub open spec fn spec_substitute(ds: Seq<(Seq<char>, Seq<char>)>, s: Seq<char>) -> Seq<char> {
    spec_subst_from(ds, s, 0)
}

/// With no macros defined, substitution returns its input unchanged.
pub proof fn lemma_substitute_empty(ds: Seq<(Seq<char>, Seq<char>)>, s: Seq<char>)
    requires
        ds.len() == 0,
    ensures
        spec_substitute(ds, s) == s,
{
    lemma_subst_from_empty(ds, s, 0);
    assert(s.skip(0) =~= s);
}

proof fn lemma_subst_from_empty(ds: Seq<(Seq<char>, Seq<char>)>, s: Seq<char>, i: int)
    requires
        ds.len() == 0,
        0 <= i <= s.len(),
    ensures
        spec_subst_from(ds, s, i) == s.skip(i),
    decreases s.len() - i,
{
    if i < s.len() {
        let e0 = spec_run_end(s, i + 1, spec_is_define_char(s[i]));
        let e = if e0 < i + 1 {
            i + 1
        } else if e0 > s.len() {
            s.len() as int
        } else {
            e0
        };
        lemma_subst_from_empty(ds, s, e);
        assert(s.subrange(i, e) + s.skip(e) =~= s.skip(i));
    } else {
        assert(s.skip(i) =~= Seq::<char>::empty());
    }
}

/// Look up `name` in the table; the latest definition wins.
pub fn lookup_macro<'a>(es: &'a Vec<(String, String)>, name: &str) -> (r: Option<&'a String>)
    ensures
        match r {
            Some(v) => spec_macro(defs_view(es@), name@) == Some(v@),
            None => spec_macro(defs_view(es@), name@) is None,
        },
{
    let ghost ds = defs_view(es@);
    let key = String::from_str(name);
    let mut j: usize = es.len();
    proof {
        assert(ds.take(ds.len() as int) =~= ds);
    }
    while j > 0
        invariant
            j <= es@.len(),
            ds == defs_view(es@),
            key@ == name@,
            spec_macro(ds, name@) == spec_macro(ds.take(j as int), name@),
        decreases j,
    {
        proof {
            assert(ds.take(j as int).last() == ds[j - 1]);
            assert(ds.take(j as int).drop_last() =~= ds.take(j - 1));
        }
        if es[j - 1].0 == key {
            return Some(&es[j - 1].1);
        }
        j = j - 1;
    }
    None
}

/// Substitute every macro of `es` in `s`, cutting `s` at class boundaries.
pub fn substitute(es: &Vec<(String, String)>, s: &str) -> (r: String)
    ensures
        r@ == spec_substitute(defs_view(es@), s@),
{
    let ghost ds = defs_view(es@);
    let n = s.unicode_len();
    let mut out = String::new();
    let mut i: usize = 0;
    while i < n
        invariant
            i <= n,
            n == s@.len(),
            ds == defs_view(es@),
            spec_substitute(ds, s@) == out@ + spec_subst_from(ds, s@, i as int),
        decreases n - i,
    {
        let cls = is_define_char(s.get_char(i));
        let mut j: usize = i + 1;
        while j < n && is_define_char(s.get_char(j)) == cls
            invariant
                i < j <= n,
                n == s@.len(),
                cls == spec_is_define_char(s@[i as int]),
                spec_run_end(s@, i + 1, cls) == spec_run_end(s@, j as int, cls),
            decreases n - j,
        {
            j = j + 1;
        }
        proof {
            assert(spec_run_end(s@, j as int, cls) == j as int);
        }
        let part = s.substring_char(i, j);
        let ghost prev = out@;
        match lookup_macro(es, part) {
            Some(v) => {
                out.append(v.as_str());
            },
            None => {
                out.append(part);
            },
        }
        proof {
            let rep = match spec_macro(ds, part@) {
                Some(v) => v,
                None => part@,
            };
            assert(out@ == prev + rep);
            assert(spec_subst_from(ds, s@, i as int) == rep + spec_subst_from(ds, s@, j as int));
            assert(prev + (rep + spec_subst_from(ds, s@, j as int)) =~= out@ + spec_subst_from(
                ds,
                s@,
                j as int,
            ));
        }
        i = j;
    }
    proof {
        assert(out@ + spec_subst_from(ds, s@, i as int) =~= out@);
    }
    out
}

} // verus!
