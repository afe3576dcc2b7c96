//! Character-level helpers shared by the content pipeline: substring
//! testing, first-occurrence search, and non-overlapping replacement,
//! each pinned to a spec function over `Seq<char>`.

use vstd::prelude::*;

verus! {

/// The pattern `pat` occurs in `s` starting at position `i`.
pub open spec fn is_at(s: Seq<char>, i: int, pat: Seq<char>) -> bool {
    &&& 0 <= i
    &&& i + pat.len() <= s.len()
    &&& s.subrange(i, i + pat.len() as int) == pat
}

/// The position of the first occurrence of `pat` in `s` at or after `i`.
pub open spec fn find_from_spec(s: Seq<char>, i: int, pat: Seq<char>) -> Option<int>
    decreases s.len() - i,
    when 0 <= i <= s.len()
{
    if pat.len() == 0 {
        Some(i)
    } else if i + pat.len() > s.len() {
        None
    } else if is_at(s, i, pat) {
        Some(i)
    } else {
        find_from_spec(s, i + 1, pat)
    }
}

/// A found occurrence lies at or after the start position, within bounds.
pub proof fn lemma_find_some(s: Seq<char>, i: int, pat: Seq<char>)
    requires
        0 <= i <= s.len(),
        find_from_spec(s, i, pat) is Some,
    ensures
        i <= find_from_spec(s, i, pat)->Some_0,
        find_from_spec(s, i, pat)->Some_0 + pat.len() <= s.len(),
        pat.len() > 0 ==> is_at(s, find_from_spec(s, i, pat)->Some_0, pat),
    decreases s.len() - i,
{
    if pat.len() == 0 {
    } else if i + pat.len() > s.len() {
    } else if is_at(s, i, pat) {
    } else {
        lemma_find_some(s, i + 1, pat);
    }
}

/// An occurrence somewhere at or after `start` means the search from
/// `start` succeeds.
pub proof fn lemma_find_witness(s: Seq<char>, start: int, t: int, pat: Seq<char>)
    requires
        0 <= start <= t,
        is_at(s, t, pat),
    ensures
        find_from_spec(s, start, pat) is Some,
    decreases t - start,
{
    if pat.len() == 0 {
    } else if is_at(s, start, pat) {
    } else {
        lemma_find_witness(s, start + 1, t, pat);
    }
}

/// `s` with every non-overlapping occurrence of `pat`, scanned left to
/// right, replaced by `rep`. An empty pattern never matches.
pub open spec fn replace_all_spec(s: Seq<char>, pat: Seq<char>, rep: Seq<char>) -> Seq<char>
    decreases s.len(),
{
    if pat.len() == 0 || s.len() < pat.len() {
        s
    } else if is_at(s, 0, pat) {
        rep + replace_all_spec(s.skip(pat.len() as int), pat, rep)
    } else {
        seq![s[0]] + replace_all_spec(s.skip(1), pat, rep)
    }
}

/// An occurrence at `i` in `s` is an occurrence at the start of `s.skip(i)`.
pub proof fn lemma_is_at_skip(s: Seq<char>, i: int, pat: Seq<char>)
    requires
        0 <= i <= s.len(),
    ensures
        is_at(s, i, pat) == is_at(s.skip(i), 0, pat),
{
    if i + pat.len() <= s.len() {
        assert(s.skip(i).subrange(0, pat.len() as int) =~= s.subrange(i, i + pat.len() as int));
    }
}

/// Replacement leaves its mark: when `pat` occurs in `s`, the
/// replacement text occurs in the result of replacing every occurrence
/// of `pat` by `rep`.
pub proof fn lemma_replace_all_keeps_replacement(s: Seq<char>, pat: Seq<char>, rep: Seq<char>)
    requires
        pat.len() > 0,
        find_from_spec(s, 0, pat) is Some,
    ensures
        exists|k: int| is_at(#[trigger] replace_all_spec(s, pat, rep), k, rep),
    decreases s.len(),
{
    lemma_find_some(s, 0, pat);
    let t = find_from_spec(s, 0, pat)->Some_0;
    if is_at(s, 0, pat) {
        let result = rep + replace_all_spec(s.skip(pat.len() as int), pat, rep);
        assert(result.subrange(0, rep.len() as int) =~= rep);
        assert(is_at(result, 0, rep));
        assert(replace_all_spec(s, pat, rep) == result);
    } else {
        let tail = s.skip(1);
        assert(tail.subrange(t - 1, t - 1 + pat.len() as int)
            =~= s.subrange(t as int, t + pat.len() as int));
        assert(is_at(tail, t - 1, pat));
        lemma_find_witness(tail, 0, t - 1, pat);
        lemma_replace_all_keeps_replacement(tail, pat, rep);
        let inner = replace_all_spec(tail, pat, rep);
        let k = choose|k: int| is_at(inner, k, rep);
        let result = seq![s[0]] + inner;
        assert((seq![s[0]] + inner).subrange(k + 1, k + 1 + rep.len() as int)
            =~= inner.subrange(k, k + rep.len() as int));
        assert(is_at(result, k + 1, rep));
        assert(replace_all_spec(s, pat, rep) == result);
    }
}

/// Collects the characters of a string slice into a vector.
pub fn to_chars(s: &str) -> (r: Vec<char>)
    ensures
        r@ == s@,
{
    let mut out: Vec<char> = Vec::new();
    for c in it: s.chars()
        invariant
            it.seq() == s@,
            out@ == it.seq().subrange(0, it.index() as int),
    {
        out.push(c);
    }
    proof {
        assert(out@ =~= s@);
    }
    out
}

/// Relies on std's `String::push`: appends a single character to the string.
#[verifier::external_body]
pub fn push_char(s: &mut String, c: char)
    ensures
        final(s)@ == old(s)@.push(c),
{
    s.push(c);
}

/// Builds the string holding exactly the given characters.
pub fn chars_to_string(v: &Vec<char>) -> (r: String)
    ensures
        r@ == v@,
{
    let mut out = String::new();
    let mut i: usize = 0;
    while i < v.len()
        invariant
            i <= v@.len(),
            out@ == v@.subrange(0, i as int),
        decreases v@.len() - i,
    {
        push_char(&mut out, v[i]);
        proof {
            assert(out@ =~= v@.subrange(0, i + 1));
        }
        i = i + 1;
    }
    proof {
        assert(out@ =~= v@);
    }
    out
}

/// Copies a character vector.
pub fn copy_chars(s: &Vec<char>) -> (r: Vec<char>)
    ensures
        r@ == s@,
{
    let mut out: Vec<char> = Vec::new();
    let mut i: usize = 0;
    while i < s.len()
        invariant
            i <= s@.len(),
            out@ == s@.subrange(0, i as int),
        decreases s@.len() - i,
    {
        out.push(s[i]);
        proof {
            assert(out@ =~= s@.subrange(0, i + 1));
        }
        i = i + 1;
    }
    proof {
        assert(out@ =~= s@);
    }
    out
}


/// Copies `s[from..to]` into a fresh vector.
pub(crate) fn copy_range(s: &Vec<char>, from: usize, to: usize) -> (r: Vec<char>)
    requires
        from <= to <= s@.len(),
    ensures
        r@ == s@.subrange(from as int, to as int),
{
    let mut out: Vec<char> = Vec::new();
    let mut k: usize = from;
    while k < to
        invariant
            from <= k <= to <= s@.len(),
            out@ == s@.subrange(from as int, k as int),
        decreases to - k,
    {
        out.push(s[k]);
        proof {
            assert(out@ =~= s@.subrange(from as int, k + 1));
        }
        k = k + 1;
    }
    out
}

/// Reports whether two character vectors hold the same characters.
pub fn chars_eq(a: &Vec<char>, b: &Vec<char>) -> (r: bool)
    ensures
        r == (a@ == b@),
{
    if a.len() != b.len() {
        return false;
    }
    let r = matches_at(a, 0, b);
    proof {
        assert(a@.subrange(0, b@.len() as int) =~= a@);
    }
    r
}

/// Reports whether `pat` occurs in `s` at position `i`.
pub fn matches_at(s: &Vec<char>, i: usize, pat: &Vec<char>) -> (r: bool)
    requires
        i <= s@.len(),
    ensures
        r == is_at(s@, i as int, pat@),
{
    let n = s.len();
    if pat.len() > n - i {
        proof {
            assert(!is_at(s@, i as int, pat@));
        }
        return false;
    }
    let mut j: usize = 0;
    while j < pat.len()
        invariant
            j <= pat@.len(),
            i + pat@.len() <= s@.len(),
            s@.len() <= usize::MAX,
            forall|k: int| 0 <= k < j ==> s@[i + k] == pat@[k],
        decreases pat@.len() - j,
    {
        if s[i + j] != pat[j] {
            proof {
                assert(!is_at(s@, i as int, pat@)) by {
                    if is_at(s@, i as int, pat@) {
                        assert(s@.subrange(i as int, i + pat@.len() as int)[j as int] == pat@[j as int]);
                    }
                }
            }
            return false;
        }
        j = j + 1;
    }
    proof {
        assert(s@.subrange(i as int, i + pat@.len() as int) =~= pat@);
    }
    true
}

/// Finds the first occurrence of `pat` in `s` at or after `from`.
pub fn find_from(s: &Vec<char>, from: usize, pat: &Vec<char>) -> (r: Option<usize>)
    requires
        from <= s@.len(),
    ensures
        match r {
            Some(t) => from <= t && find_from_spec(s@, from as int, pat@) == Some(t as int),
            None => find_from_spec(s@, from as int, pat@) is None,
        },
{
    let n = s.len();
    let mut i: usize = from;
    while pat.len() <= n && i <= n - pat.len()
        invariant
            n == s@.len(),
            from <= i <= s@.len(),
            s@.len() <= usize::MAX,
            find_from_spec(s@, from as int, pat@) == find_from_spec(s@, i as int, pat@),
        decreases s@.len() - i,
    {
        if matches_at(s, i, pat) {
            proof {
                assert(pat@.len() > 0 || s@.subrange(i as int, i as int) =~= pat@);
            }
            return Some(i);
        }
        proof {
            assert(pat@.len() > 0) by {
                if pat@.len() == 0 {
                    assert(s@.subrange(i as int, i as int) =~= pat@);
                }
            }
        }
        i = i + 1;
    }
    proof {
        assert(pat@.len() > 0) by {
            if pat@.len() == 0 {
                assert(i <= s@.len() - pat@.len());
            }
        }
        assert(i + pat@.len() > s@.len());
    }
    None
}

/// `s` with every non-overlapping occurrence of `pat`, scanned left to
/// right, replaced by `rep`.
pub fn replace_all(s: &Vec<char>, pat: &Vec<char>, rep: &Vec<char>) -> (r: Vec<char>)
    ensures
        r@ == replace_all_spec(s@, pat@, rep@),
{
    let n = s.len();
    let mut out: Vec<char> = Vec::new();
    let mut i: usize = 0;
    if pat.len() == 0 {
        while i < n
            invariant
                n == s@.len(),
                i <= n,
                out@ == s@.subrange(0, i as int),
            decreases n - i,
        {
            out.push(s[i]);
            proof {
                assert(out@ =~= s@.subrange(0, i + 1));
            }
            i = i + 1;
        }
        proof {
            assert(out@ =~= s@);
        }
        return out;
    }
    proof {
        assert(s@.skip(0) =~= s@);
        assert(Seq::<char>::empty() + replace_all_spec(s@, pat@, rep@)
            =~= replace_all_spec(s@, pat@, rep@));
    }
    while i < n
        invariant
            n == s@.len(),
            i <= n,
            pat@.len() > 0,
            out@ + replace_all_spec(s@.skip(i as int), pat@, rep@)
                == replace_all_spec(s@, pat@, rep@),
        decreases n - i,
    {
        proof {
            lemma_is_at_skip(s@, i as int, pat@);
        }
        if matches_at(s, i, pat) {
            let ghost out0 = out@;
            let mut j: usize = 0;
            while j < rep.len()
                invariant
                    j <= rep@.len(),
                    out@ == out0 + rep@.subrange(0, j as int),
                decreases rep@.len() - j,
            {
                out.push(rep[j]);
                proof {
                    assert(out@ =~= out0 + rep@.subrange(0, j + 1));
                }
                j = j + 1;
            }
            proof {
                assert(out@ =~= out0 + rep@);
                assert(s@.skip(i as int).skip(pat@.len() as int)
                    =~= s@.skip(i + pat@.len() as int));
            }
            i = i + pat.len();
        } else {
            out.push(s[i]);
            proof {
                assert(s@.skip(i as int).len() >= 1);
                assert(s@.skip(i as int).skip(1) =~= s@.skip(i + 1));
                assert(seq![s@.skip(i as int)[0]] =~= seq![s@[i as int]]);
            }
            i = i + 1;
        }
    }
    proof {
        assert(s@.skip(i as int) =~= Seq::<char>::empty());
    }
    out
}

} // verus!
