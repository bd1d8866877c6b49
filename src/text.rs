//! Character-level text operations shared by the pattern pipeline.

use vstd::prelude::*;
use vstd::string::*;

verus! {

/// `f` occurs in `s` starting at character position `i`.
pub open spec fn occurs_at(s: Seq<char>, i: int, f: Seq<char>) -> bool {
    0 <= i && i + f.len() <= s.len() && s.subrange(i, i + f.len()) == f
}

/// `t` occurs somewhere in `hay`.
pub open spec fn contains(hay: Seq<char>, t: Seq<char>) -> bool {
    exists|i: int| occurs_at(hay, i, t)
}

/// `s` with every occurrence of `from` replaced by `to`, scanning from the
/// left and never overlapping: once an occurrence is replaced, the scan goes
/// on after it. An empty `from` leaves `s` as it is.
pub open spec fn replaced(s: Seq<char>, from: Seq<char>, to: Seq<char>) -> Seq<char>
    decreases s.len(),
{
    if s.len() == 0 || from.len() == 0 {
        s
    } else if occurs_at(s, 0, from) {
        to + replaced(s.skip(from.len() as int), from, to)
    } else {
        seq![s[0]] + replaced(s.skip(1), from, to)
    }
}

/// Whether `f` (of `m` characters) occurs in `s` (of `n` characters) at `i`.
pub fn occurs_at_exec(s: &str, n: usize, i: usize, f: &str, m: usize) -> (r: bool)
    requires
        n == s@.len(),
        m == f@.len(),
        i <= n,
    ensures
        r == occurs_at(s@, i as int, f@),
{
    if m > n - i {
        return false;
    }
    let mut j: usize = 0;
    while j < m
        invariant
            i + m <= n,
            n == s@.len(),
            m == f@.len(),
            j <= m,
            forall|k: int| 0 <= k < j ==> s@[i + k] == f@[k],
        decreases m - j,
    {
        if s.get_char(i + j) != f.get_char(j) {
            proof {
                assert(s@.subrange(i as int, i + m)[j as int] != f@[j as int]);
            }
            return false;
        }
        j += 1;
    }
    assert(s@.subrange(i as int, i + m) =~= f@);
    true
}

/// Replaces every occurrence of `from` in `s` by `to`, left to right.
pub fn replace_all(s: &str, from: &str, to: &str) -> (r: String)
    ensures
        r@ == replaced(s@, from@, to@),
{
    let n = s.unicode_len();
    let m = from.unicode_len();
    if m == 0 {
        return String::from_str(s);
    }
    let mut out = String::new();
    let mut i: usize = 0;
    assert(s@.skip(0) =~= s@);
    assert(out@ + replaced(s@, from@, to@) =~= replaced(s@, from@, to@));
    while i < n
        invariant
            n == s@.len(),
            m == from@.len(),
            m > 0,
            i <= n,
            replaced(s@, from@, to@) == out@ + replaced(s@.skip(i as int), from@, to@),
        decreases n - i,
    {
        let ghost rest = s@.skip(i as int);
        if occurs_at_exec(s, n, i, from, m) {
            proof {
                assert(rest.subrange(0, m as int) =~= s@.subrange(i as int, i + m));
                assert(rest.skip(m as int) =~= s@.skip(i + m));
            }
            let ghost before = out@;
            out.append(to);
            i = i + m;
            assert(before + (to@ + replaced(s@.skip(i as int), from@, to@)) =~= out@ + replaced(
                s@.skip(i as int),
                from@,
                to@,
            ));
        } else {
            let c = s.substring_char(i, i + 1);
            proof {
                assert(!occurs_at(rest, 0, from@)) by {
                    if occurs_at(rest, 0, from@) {
                        assert(rest.subrange(0, m as int) =~= s@.subrange(i as int, i + m));
                    }
                }
                assert(rest.skip(1) =~= s@.skip(i + 1));
                assert(c@ =~= seq![rest[0]]);
            }
            let ghost before = out@;
            out.append(c);
            i = i + 1;
            assert(before + (c@ + replaced(s@.skip(i as int), from@, to@)) =~= out@ + replaced(
                s@.skip(i as int),
                from@,
                to@,
            ));
        }
    }
    assert(s@.skip(n as int) =~= Seq::<char>::empty());
    out
}

/// Whether two texts hold the same characters.
pub fn same_text(a: &str, b: &str) -> (r: bool)
    ensures
        r == (a@ == b@),
{
    let n = a.unicode_len();
    let m = b.unicode_len();
    if n != m {
        return false;
    }
    let r = occurs_at_exec(a, n, 0, b, m);
    assert(a@.subrange(0, n as int) =~= a@);
    r
}

} // verus!
