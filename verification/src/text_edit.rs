use vstd::prelude::*;
use crate::text::{push_char, split, split_spec, substring};

verus! {

/// A line without the carriage return that ended it, if any.
pub open spec fn strip_cr(p: Seq<char>) -> Seq<char> {
    if p.len() > 0 && p.last() == '\r' {
        p.drop_last()
    } else {
        p
    }
}

/// The lines of a text, as std's `str::lines` gives them: split at `\n`, each line
/// that a `\n` ended without its `\r`, and no empty line after a final line ending.
pub open spec fn lines_spec(s: Seq<char>) -> Seq<Seq<char>> {
    let pieces = split_spec(s, '\n');
    let body = pieces.drop_last().map_values(|p: Seq<char>| strip_cr(p));
    if pieces.last().len() == 0 {
        body
    } else {
        body.push(pieces.last())
    }
}

/// The lines of a text.
pub fn lines(s: &str) -> (r: Vec<String>)
    ensures
        r@.map_values(|l: String| l@) == lines_spec(s@),
{
    let pieces = split(s, '\n');
    let ghost ps = split_spec(s@, '\n');
    proof {
        crate::text::lemma_split_nonempty(s@, '\n');
    }
    let last = pieces.len() - 1;
    let mut out: Vec<String> = Vec::new();
    let mut i: usize = 0;
    while i < last
        invariant
            ps == split_spec(s@, '\n'),
            pieces@.len() == ps.len(),
            forall|k: int| 0 <= k < pieces@.len() ==> #[trigger] pieces@[k]@ == ps[k],
            last == ps.len() - 1,
            i <= last,
            out@.map_values(|l: String| l@) == ps.drop_last().take(i as int).map_values(|p: Seq<char>| strip_cr(p)),
        decreases last - i,
    {
        let p = pieces[i].as_str();
        let n = p.unicode_len();
        let line = if n > 0 && p.get_char(n - 1) == '\r' {
            substring(p, 0, n - 1)
        } else {
            p.to_string()
        };
        proof {
            assert(p@.drop_last() =~= p@.subrange(0, n - 1));
            assert(ps.drop_last().take(i + 1) =~= ps.drop_last().take(i as int).push(ps[i as int]));
            assert(out@.push(line).map_values(|l: String| l@) =~= out@.map_values(|l: String| l@).push(line@));
            assert(ps.drop_last().take(i as int).push(ps[i as int]).map_values(|p: Seq<char>| strip_cr(p))
                =~= ps.drop_last().take(i as int).map_values(|p: Seq<char>| strip_cr(p)).push(strip_cr(ps[i as int])));
        }
        out.push(line);
        i = i + 1;
    }
    proof {
        assert(ps.drop_last().take(last as int) =~= ps.drop_last());
    }
    let tail = pieces[last].as_str();
    if tail.unicode_len() > 0 {
        let t = tail.to_string();
        proof {
            assert(out@.push(t).map_values(|l: String| l@) =~= out@.map_values(|l: String| l@).push(t@));
        }
        out.push(t);
    }
    out
}

/// `s` with each occurrence of `pat` replaced by `rep`, scanning from the left and not
/// overlapping, as std's `str::replace` does for a non-empty pattern.
pub open spec fn replace_spec(s: Seq<char>, pat: Seq<char>, rep: Seq<char>) -> Seq<char>
    decreases s.len(),
{
    if pat.len() == 0 || s.len() < pat.len() {
        s
    } else if s.take(pat.len() as int) == pat {
        rep + replace_spec(s.skip(pat.len() as int), pat, rep)
    } else {
        seq![s[0]] + replace_spec(s.skip(1), pat, rep)
    }
}

/// Whether `pat` occurs in `s` at character `i`.
fn occurs_at(s: &str, i: usize, pat: &str) -> (r: bool)
    requires
        i + pat@.len() <= s@.len(),
    ensures
        r == (s@.subrange(i as int, i + pat@.len()) == pat@),
{
    let m = pat.unicode_len();
    let n = s.unicode_len();
    let mut k: usize = 0;
    while k < m
        invariant
            m == pat@.len(),
            i + m <= s@.len(),
            n == s@.len(),
            k <= m,
            forall|j: int| 0 <= j < k ==> s@[i + j] == pat@[j],
        decreases m - k,
    {
        if s.get_char(i + k) != pat.get_char(k) {
            assert(s@.subrange(i as int, i + m)[k as int] != pat@[k as int]);
            return false;
        }
        k = k + 1;
    }
    assert(s@.subrange(i as int, i + m) =~= pat@);
    true
}

/// `s` with each occurrence of a non-empty `pat` replaced by `rep`.
pub fn replace(s: &str, pat: &str, rep: &str) -> (r: String)
    requires
        pat@.len() > 0,
    ensures
        r@ == replace_spec(s@, pat@, rep@),
{
    let n = s.unicode_len();
    let m = pat.unicode_len();
    let mut out = String::new();
    let mut i: usize = 0;
    proof {
        assert(s@.skip(0) =~= s@);
        assert(out@ + replace_spec(s@, pat@, rep@) =~= replace_spec(s@, pat@, rep@));
    }
    while i < n
        invariant
            n == s@.len(),
            m == pat@.len(),
            m > 0,
            i <= n,
            out@ + replace_spec(s@.skip(i as int), pat@, rep@) == replace_spec(s@, pat@, rep@),
        decreases n - i,
    {
        let ghost t = s@.skip(i as int);
        if n - i >= m && occurs_at(s, i, pat) {
            proof {
                assert(t.take(m as int) =~= s@.subrange(i as int, i + m));
                assert(t.skip(m as int) =~= s@.skip(i + m));
                assert(out@ + rep@ + replace_spec(s@.skip(i + m), pat@, rep@) =~= out@ + (rep@
                    + replace_spec(t.skip(m as int), pat@, rep@)));
            }
            out.append(rep);
            i = i + m;
        } else {
            let c = s.get_char(i);
            proof {
                assert(t.skip(1) =~= s@.skip(i + 1));
                if t.len() < m {
                    assert(replace_spec(t.skip(1), pat@, rep@) == t.skip(1));
                    assert(t =~= seq![c] + t.skip(1));
                } else {
                    assert(t.take(m as int) =~= s@.subrange(i as int, i + m));
                }
                assert(out@.push(c) + replace_spec(s@.skip(i + 1), pat@, rep@) =~= out@ + (seq![c]
                    + replace_spec(t.skip(1), pat@, rep@)));
            }
            push_char(&mut out, c);
            i = i + 1;
        }
    }
    proof {
        assert(s@.skip(n as int) =~= Seq::<char>::empty());
        assert(out@ + Seq::<char>::empty() =~= out@);
    }
    out
}

/// The position of the last occurrence of `c` in `s`, if any.
pub open spec fn last_index_spec(s: Seq<char>, c: char) -> Option<int>
    decreases s.len(),
{
    if s.len() == 0 {
        None
    } else if s.last() == c {
        Some(s.len() - 1)
    } else {
        last_index_spec(s.drop_last(), c)
    }
}

/// A last occurrence lies within the text and holds `c`.
pub proof fn lemma_last_index_in_range(s: Seq<char>, c: char)
    ensures
        last_index_spec(s, c) matches Some(i) ==> 0 <= i < s.len() && s[i] == c,
    decreases s.len(),
{
    if s.len() > 0 && s.last() != c {
        lemma_last_index_in_range(s.drop_last(), c);
    }
}

/// The position of the last occurrence of `c` in `s`, as std's `str::rfind` with a
/// character gives it (counted in characters).
pub fn last_index_of(s: &str, c: char) -> (r: Option<usize>)
    ensures
        match r {
            Some(i) => last_index_spec(s@, c) == Some(i as int),
            None => last_index_spec(s@, c) is None,
        },
{
    let n = s.unicode_len();
    let mut k: usize = n;
    proof {
        assert(s@.take(n as int) =~= s@);
    }
    while k > 0
        invariant
            k <= n,
            n == s@.len(),
            last_index_spec(s@, c) == last_index_spec(s@.take(k as int), c),
        decreases k,
    {
        proof {
            assert(s@.take(k as int).drop_last() =~= s@.take(k - 1));
        }
        if s.get_char(k - 1) == c {
            return Some(k - 1);
        }
        k = k - 1;
    }
    None
}

/// Replacing a pattern that does not occur changes nothing.
pub proof fn lemma_replace_absent(s: Seq<char>, pat: Seq<char>, rep: Seq<char>)
    requires
        !crate::text::contains_spec(s, pat),
    ensures
        replace_spec(s, pat, rep) == s,
    decreases s.len(),
{
    if pat.len() > 0 && s.len() >= pat.len() {
        let z: int = 0;
        assert(s.take(pat.len() as int) != pat) by {
            assert(s.subrange(z, z + pat.len()) =~= s.take(pat.len() as int));
        }
        assert(!crate::text::contains_spec(s.skip(1), pat)) by {
            if crate::text::contains_spec(s.skip(1), pat) {
                let i = choose|i: int| 0 <= i <= s.skip(1).len() - pat.len() && #[trigger] s.skip(1).subrange(i, i + pat.len()) == pat;
                assert(s.subrange(i + 1, i + 1 + pat.len()) =~= s.skip(1).subrange(i, i + pat.len()));
            }
        }
        lemma_replace_absent(s.skip(1), pat, rep);
        assert(seq![s[0]] + s.skip(1) =~= s);
    }
}

/// Where a non-empty pattern occurs, the replacement text occurs in the result.
pub proof fn lemma_replace_present(s: Seq<char>, pat: Seq<char>, rep: Seq<char>)
    requires
        pat.len() > 0,
        crate::text::contains_spec(s, pat),
    ensures
        crate::text::contains_spec(replace_spec(s, pat, rep), rep),
    decreases s.len(),
{
    let i = choose|i: int| 0 <= i <= s.len() - pat.len() && #[trigger] s.subrange(i, i + pat.len()) == pat;
    let z: int = 0;
    if s.take(pat.len() as int) == pat {
        let rest = replace_spec(s.skip(pat.len() as int), pat, rep);
        assert((rep + rest).subrange(z, z + rep.len()) =~= rep);
    } else {
        assert(i != 0) by {
            if i == 0 {
                assert(s.subrange(z, z + pat.len()) =~= s.take(pat.len() as int));
            }
        }
        assert(s.skip(1).subrange(i - 1, i - 1 + pat.len()) =~= s.subrange(i, i + pat.len()));
        lemma_replace_present(s.skip(1), pat, rep);
        let rest = replace_spec(s.skip(1), pat, rep);
        let j = choose|j: int| 0 <= j <= rest.len() - rep.len() && #[trigger] rest.subrange(j, j + rep.len()) == rep;
        assert((seq![s[0]] + rest).subrange(j + 1, j + 1 + rep.len()) =~= rest.subrange(j, j + rep.len()));
    }
}

/// No occurrence of `pat` in `a + b` starts in `a` and ends in `b`.
pub open spec fn no_straddle(a: Seq<char>, b: Seq<char>, pat: Seq<char>) -> bool {
    forall|i: int|
        0 <= i < a.len() && a.len() < i + pat.len() <= a.len() + b.len() ==> #[trigger] (a + b).subrange(
            i,
            i + pat.len(),
        ) != pat
}

/// Where no occurrence of the pattern straddles the seam, replacing in two joined texts
/// replaces in each.
pub proof fn lemma_replace_split(a: Seq<char>, b: Seq<char>, pat: Seq<char>, rep: Seq<char>)
    requires
        pat.len() > 0,
        no_straddle(a, b, pat),
    ensures
        replace_spec(a + b, pat, rep) == replace_spec(a, pat, rep) + replace_spec(b, pat, rep),
    decreases a.len(),
{
    let s = a + b;
    let n = pat.len() as int;
    let z: int = 0;
    if a.len() == 0 {
        assert(s =~= b);
        assert(replace_spec(a, pat, rep) + replace_spec(b, pat, rep) =~= replace_spec(b, pat, rep));
    } else if s.len() < n {
        assert(replace_spec(a, pat, rep) + replace_spec(b, pat, rep) =~= s);
    } else if s.take(n) == pat {
        assert(s.subrange(z, z + n) =~= s.take(n));
        assert(n <= a.len());
        assert(a.take(n) =~= s.take(n));
        let a2 = a.skip(n);
        assert(s.skip(n) =~= a2 + b);
        assert forall|i: int|
            0 <= i < a2.len() && a2.len() < i + n <= a2.len() + b.len() implies #[trigger] (a2 + b).subrange(
                i,
                i + n,
            ) != pat by {
            assert((a2 + b).subrange(i, i + n) =~= s.subrange(i + n, i + n + n));
        }
        lemma_replace_split(a2, b, pat, rep);
        assert(rep + (replace_spec(a2, pat, rep) + replace_spec(b, pat, rep)) =~= (rep + replace_spec(a2, pat, rep))
            + replace_spec(b, pat, rep));
    } else {
        let a2 = a.skip(1);
        assert(s.skip(1) =~= a2 + b);
        assert forall|i: int|
            0 <= i < a2.len() && a2.len() < i + n <= a2.len() + b.len() implies #[trigger] (a2 + b).subrange(
                i,
                i + n,
            ) != pat by {
            assert((a2 + b).subrange(i, i + n) =~= s.subrange(i + 1, i + 1 + n));
        }
        lemma_replace_split(a2, b, pat, rep);
        assert(s[0] == a[0]);
        if a.len() < n {
            assert(seq![a[0]] + a2 =~= a);
            assert(seq![a[0]] + (a2 + replace_spec(b, pat, rep)) =~= a + replace_spec(b, pat, rep));
        } else {
            assert(a.take(n) =~= s.take(n));
            assert(seq![a[0]] + (replace_spec(a2, pat, rep) + replace_spec(b, pat, rep)) =~= (seq![a[0]]
                + replace_spec(a2, pat, rep)) + replace_spec(b, pat, rep));
        }
    }
}

/// Whether `t` and `x` agree over the length they share from their starts.
pub open spec fn agree_at_start(t: Seq<char>, x: Seq<char>) -> bool {
    let m = if t.len() < x.len() {
        t.len()
    } else {
        x.len()
    };
    t.take(m as int) == x.take(m as int)
}

/// A replacement keeps an occurrence of `x` that no occurrence of `pat` can overlap: `pat`
/// is not in `x`, no proper end of `pat` agrees with the start of `x`, and no proper start
/// of `pat` is an end of `x`.
pub proof fn lemma_replace_keeps(s: Seq<char>, x: Seq<char>, pat: Seq<char>, rep: Seq<char>)
    requires
        pat.len() > 0,
        crate::text::contains_spec(s, x),
        !crate::text::contains_spec(x, pat),
        forall|k: int| 0 < k < pat.len() ==> !#[trigger] agree_at_start(pat.skip(k), x),
        forall|k: int| 0 < k < pat.len() && k <= x.len() ==> #[trigger] pat.take(k) != x.skip(x.len() - k),
    ensures
        crate::text::contains_spec(replace_spec(s, pat, rep), x),
{
    let n = pat.len() as int;
    let i = choose|i: int| 0 <= i <= s.len() - x.len() && #[trigger] s.subrange(i, i + x.len()) == x;
    let a = s.take(i);
    let b = s.skip(i + x.len());
    let xb = x + b;
    assert(s =~= a + xb);
    assert forall|j: int| 0 <= j < a.len() && a.len() < j + n <= a.len() + xb.len() implies #[trigger] (a
        + xb).subrange(j, j + n) != pat by {
        if (a + xb).subrange(j, j + n) == pat {
            let k = a.len() - j;
            assert(pat.skip(k) =~= xb.take(n - k));
            let m = if n - k < x.len() {
                n - k
            } else {
                x.len() as int
            };
            assert(pat.skip(k).take(m) =~= x.take(m));
            assert(agree_at_start(pat.skip(k), x));
        }
    }
    lemma_replace_split(a, xb, pat, rep);
    assert forall|j: int| 0 <= j < x.len() && x.len() < j + n <= x.len() + b.len() implies #[trigger] (x
        + b).subrange(j, j + n) != pat by {
        if (x + b).subrange(j, j + n) == pat {
            let k = x.len() - j;
            assert(pat.take(k) =~= x.skip(x.len() - k));
        }
    }
    lemma_replace_split(x, b, pat, rep);
    lemma_replace_absent(x, pat, rep);
    let ra = replace_spec(a, pat, rep);
    let r = ra + (x + replace_spec(b, pat, rep));
    assert(r.subrange(ra.len() as int, ra.len() + x.len() as int) =~= x);
}

} // verus!
