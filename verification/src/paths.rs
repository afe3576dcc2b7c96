//! Resolution of a relative reference against the directory of the
//! document it occurs in, on paths inside the container: the directory
//! part of the document's location is joined with the reference, and
//! `.`, `..` and empty segments are collapsed, the way the container's
//! own resolved locations were computed, so that a reference such as
//! `../images/x.png` meets the location index.

use vstd::prelude::*;
use crate::text::{chars_to_string, chars_eq, copy_range, find_from, find_from_spec, lemma_find_some};

verus! {

/// The index of the last occurrence of `c` in `s`, if any.
pub open spec fn last_index_of(s: Seq<char>, c: char) -> Option<int>
    decreases s.len(),
{
    if s.len() == 0 {
        None
    } else if s[s.len() - 1] == c {
        Some(s.len() - 1)
    } else {
        last_index_of(s.drop_last(), c)
    }
}

/// The segments of `s[i..]`, split at every `/`; a trailing separator
/// yields a trailing empty segment.
pub open spec fn seg_split(s: Seq<char>, i: int) -> Seq<Seq<char>>
    decreases s.len() - i,
    when 0 <= i <= s.len()
    via seg_split_decreases
{
    match find_from_spec(s, i, seq!['/']) {
        None => seq![s.subrange(i, s.len() as int)],
        Some(k) => seq![s.subrange(i, k)] + seg_split(s, k + 1),
    }
}

#[via_fn]
proof fn seg_split_decreases(s: Seq<char>, i: int) {
    match find_from_spec(s, i, seq!['/']) {
        None => {},
        Some(k) => {
            lemma_find_some(s, i, seq!['/']);
        },
    }
}

/// The segments kept after collapsing, from position `i` on: an empty
/// segment or `.` is dropped, `..` removes the segment kept last (at
/// the root it is dropped), anything else is kept.
pub open spec fn collapse_segs(segs: Seq<Seq<char>>, i: int, kept: Seq<Seq<char>>) -> Seq<Seq<char>>
    decreases segs.len() - i,
    when 0 <= i <= segs.len()
{
    if i == segs.len() {
        kept
    } else {
        let sg = segs[i];
        let next = if sg.len() == 0 || sg == seq!['.'] {
            kept
        } else if sg == seq!['.', '.'] {
            if kept.len() > 0 {
                kept.drop_last()
            } else {
                kept
            }
        } else {
            kept.push(sg)
        };
        collapse_segs(segs, i + 1, next)
    }
}

/// The segments from position `i` on, each preceded by a separator.
pub open spec fn join_rest(segs: Seq<Seq<char>>, i: int) -> Seq<char>
    decreases segs.len() - i,
    when 0 <= i <= segs.len()
{
    if i >= segs.len() {
        Seq::empty()
    } else {
        seq!['/'] + segs[i] + join_rest(segs, i + 1)
    }
}

/// The segments joined by `/`, with no leading separator.
pub open spec fn join_segs(segs: Seq<Seq<char>>) -> Seq<char> {
    if segs.len() == 0 {
        Seq::empty()
    } else {
        segs[0] + join_rest(segs, 1)
    }
}

/// The path with `.`, `..` and empty segments collapsed; a leading `/`
/// is kept.
pub open spec fn normalize_spec(s: Seq<char>) -> Seq<char> {
    let kept = collapse_segs(seg_split(s, 0), 0, Seq::empty());
    if s.len() > 0 && s[0] == '/' {
        seq!['/'] + join_segs(kept)
    } else {
        join_segs(kept)
    }
}

/// The directory join of `location` and `reference`: the part of
/// `location` up to its last `/`, then `/`, then `reference`; a
/// location without `/` has the container root as its directory.
pub open spec fn joined_spec(location: Seq<char>, reference: Seq<char>) -> Seq<char> {
    match last_index_of(location, '/') {
        None => reference,
        Some(k) => location.take(k) + seq!['/'] + reference,
    }
}

/// `reference` resolved against the directory holding `location`: a
/// reference that already starts at the root passes through unchanged;
/// any other is joined to the directory and normalized.
pub open spec fn resolve_spec(location: Seq<char>, reference: Seq<char>) -> Seq<char> {
    if reference.len() > 0 && reference[0] == '/' {
        reference
    } else {
        normalize_spec(joined_spec(location, reference))
    }
}

pub proof fn lemma_last_index_hit(s: Seq<char>, c: char, i: int)
    requires
        0 <= i < s.len(),
        s[i] == c,
        forall|j: int| i < j < s.len() ==> s[j] != c,
    ensures
        last_index_of(s, c) == Some(i),
    decreases s.len(),
{
    if i == s.len() - 1 {
    } else {
        lemma_last_index_hit(s.drop_last(), c, i);
    }
}

pub proof fn lemma_last_index_miss(s: Seq<char>, c: char)
    requires
        forall|j: int| 0 <= j < s.len() ==> s[j] != c,
    ensures
        last_index_of(s, c) is None,
    decreases s.len(),
{
    if s.len() > 0 {
        lemma_last_index_miss(s.drop_last(), c);
    }
}

/// Joins `reference` to the directory holding `location`.
fn join_to_directory(location: &Vec<char>, reference: &Vec<char>) -> (r: Vec<char>)
    ensures
        r@ == joined_spec(location@, reference@),
{
    let mut i = location.len();
    let mut slash: Option<usize> = None;
    while i > 0 && slash.is_none()
        invariant
            i <= location@.len(),
            match slash {
                None => forall|j: int| i <= j < location@.len() ==> location@[j] != '/',
                Some(k) => k < location@.len() && location@[k as int] == '/'
                    && forall|j: int| k < j < location@.len() ==> location@[j] != '/',
            },
        decreases i,
    {
        i = i - 1;
        if location[i] == '/' {
            slash = Some(i);
        }
    }
    let mut out: Vec<char> = Vec::new();
    match slash {
        None => {
            proof {
                lemma_last_index_miss(location@, '/');
            }
            return crate::text::copy_chars(reference);
        },
        Some(k) => {
            proof {
                lemma_last_index_hit(location@, '/', k as int);
            }
            let mut m: usize = 0;
            while m < k
                invariant
                    m <= k < location@.len(),
                    out@ == location@.subrange(0, m as int),
                decreases k - m,
            {
                out.push(location[m]);
                proof {
                    assert(out@ =~= location@.subrange(0, m + 1));
                }
                m = m + 1;
            }
            out.push('/');
            proof {
                assert(out@ =~= location@.take(k as int) + seq!['/']
                    + Seq::<char>::empty());
                assert(reference@.subrange(0, 0) =~= Seq::<char>::empty());
            }
            let mut m2: usize = 0;
            while m2 < reference.len()
                invariant
                    m2 <= reference@.len(),
                    out@ == location@.take(k as int) + seq!['/']
                        + reference@.subrange(0, m2 as int),
                decreases reference@.len() - m2,
            {
                out.push(reference[m2]);
                proof {
                    assert(out@ =~= location@.take(k as int) + seq!['/']
                        + reference@.subrange(0, m2 + 1));
                }
                m2 = m2 + 1;
            }
            proof {
                assert(reference@.subrange(0, reference@.len() as int) =~= reference@);
            }
        },
    }
    out
}

/// Appends the characters of `seg` to `out`.
fn append_seg(out: &mut Vec<char>, seg: &Vec<char>)
    ensures
        final(out)@ == old(out)@ + seg@,
{
    let mut k: usize = 0;
    while k < seg.len()
        invariant
            k <= seg@.len(),
            out@ == old(out)@ + seg@.subrange(0, k as int),
        decreases seg@.len() - k,
    {
        out.push(seg[k]);
        proof {
            assert(out@ =~= old(out)@ + seg@.subrange(0, k + 1));
        }
        k = k + 1;
    }
    proof {
        assert(out@ =~= old(out)@ + seg@);
    }
}

/// Collapses `.`, `..` and empty segments of a path, keeping a leading
/// separator.
pub fn normalize_path(s: &Vec<char>) -> (r: Vec<char>)
    ensures
        r@ == normalize_spec(s@),
{
    let slash: Vec<char> = vec!['/'];
    proof {
        assert(slash@ =~= seq!['/']);
    }
    let n = s.len();
    let mut segs: Vec<Vec<char>> = Vec::new();
    let mut pos: usize = 0;
    proof {
        assert(Seq::<Seq<char>>::empty() + seg_split(s@, 0) =~= seg_split(s@, 0));
    }
    loop
        invariant_except_break
            pos <= s@.len(),
            s@.len() <= usize::MAX,
            n == s@.len(),
            slash@ == seq!['/'],
            seg_split(s@, 0) == segs.deep_view() + seg_split(s@, pos as int),
        ensures
            segs.deep_view() == seg_split(s@, 0),
        decreases s@.len() - pos,
    {
        match find_from(s, pos, &slash) {
            None => {
                let last = copy_range(s, pos, n);
                let ghost old_deep = segs.deep_view();
                segs.push(last);
                proof {
                    assert(segs@[old_deep.len() as int].deep_view()
                        =~= s@.subrange(pos as int, s@.len() as int));
                    assert(segs.deep_view()
                        =~= old_deep.push(s@.subrange(pos as int, s@.len() as int)));
                    assert(old_deep.push(s@.subrange(pos as int, s@.len() as int))
                        =~= old_deep + seq![s@.subrange(pos as int, s@.len() as int)]);
                    assert(segs.deep_view() =~= seg_split(s@, 0));
                }
                break;
            },
            Some(k) => {
                proof {
                    lemma_find_some(s@, pos as int, slash@);
                }
                let sgv = copy_range(s, pos, k);
                let ghost old_deep = segs.deep_view();
                segs.push(sgv);
                proof {
                    assert(segs@[old_deep.len() as int].deep_view()
                        =~= s@.subrange(pos as int, k as int));
                    assert(segs.deep_view() =~= old_deep.push(s@.subrange(pos as int, k as int)));
                    assert(old_deep.push(s@.subrange(pos as int, k as int))
                        + seg_split(s@, k + 1)
                        =~= old_deep + (seq![s@.subrange(pos as int, k as int)]
                            + seg_split(s@, k + 1)));
                }
                pos = k + 1;
            },
        }
    }
    let dot: Vec<char> = vec!['.'];
    let ddot: Vec<char> = vec!['.', '.'];
    proof {
        assert(dot@ =~= seq!['.']);
        assert(ddot@ =~= seq!['.', '.']);
    }
    let mut kept: Vec<Vec<char>> = Vec::new();
    let mut i: usize = 0;
    proof {
        assert(kept.deep_view() =~= Seq::<Seq<char>>::empty());
    }
    while i < segs.len()
        invariant
            i <= segs@.len(),
            segs.deep_view().len() == segs@.len(),
            dot@ == seq!['.'],
            ddot@ == seq!['.', '.'],
            collapse_segs(segs.deep_view(), 0, Seq::empty())
                == collapse_segs(segs.deep_view(), i as int, kept.deep_view()),
        decreases segs@.len() - i,
    {
        let sg = &segs[i];
        proof {
            assert(segs@[i as int].deep_view() =~= segs@[i as int]@);
            assert(segs.deep_view()[i as int] == sg@);
        }
        if sg.len() == 0 || chars_eq(sg, &dot) {
        } else if chars_eq(sg, &ddot) {
            if kept.len() > 0 {
                let ghost old_k = kept.deep_view();
                kept.pop();
                proof {
                    assert(kept.deep_view() =~= old_k.drop_last());
                }
            }
        } else {
            let ghost old_k = kept.deep_view();
            let copy = crate::text::copy_chars(sg);
            kept.push(copy);
            proof {
                assert(kept@[old_k.len() as int].deep_view() =~= sg@);
                assert(kept.deep_view() =~= old_k.push(sg@));
            }
        }
        i = i + 1;
    }
    let lead = s.len() > 0 && s[0] == '/';
    let ghost prefix = if lead {
        seq!['/']
    } else {
        Seq::<char>::empty()
    };
    let mut out: Vec<char> = Vec::new();
    if lead {
        out.push('/');
    }
    proof {
        assert(out@ =~= prefix);
    }
    let ghost kd = kept.deep_view();
    if kept.len() > 0 {
        append_seg(&mut out, &kept[0]);
        proof {
            assert(kept@[0].deep_view() == kd[0]);
            assert(out@ + join_rest(kd, 1)
                =~= prefix + (kd[0] + join_rest(kd, 1)));
        }
        let mut m: usize = 1;
        while m < kept.len()
            invariant
                1 <= m <= kept@.len(),
                kd == kept.deep_view(),
                kd.len() == kept@.len(),
                out@ + join_rest(kd, m as int) == prefix + join_segs(kd),
            decreases kept@.len() - m,
        {
            let ghost before = out@;
            out.push('/');
            append_seg(&mut out, &kept[m]);
            proof {
                assert(kept@[m as int].deep_view() == kd[m as int]);
                assert(out@ =~= before + (seq!['/'] + kd[m as int]));
                assert((before + (seq!['/'] + kd[m as int])) + join_rest(kd, m + 1)
                    =~= before + ((seq!['/'] + kd[m as int]) + join_rest(kd, m + 1)));
                assert((seq!['/'] + kd[m as int]) + join_rest(kd, m + 1)
                    =~= join_rest(kd, m as int));
            }
            m = m + 1;
        }
        proof {
            assert(join_rest(kd, kd.len() as int) =~= Seq::<char>::empty());
            assert(out@ =~= prefix + join_segs(kd));
        }
    } else {
        proof {
            assert(out@ =~= prefix + join_segs(kd));
        }
    }
    out
}

/// Resolves `reference` relative to the directory of `location`,
/// collapsing `.`, `..` and empty segments; a reference that already
/// starts at the root passes through unchanged.
pub fn resolve_relative(location: &Vec<char>, reference: &Vec<char>) -> (r: String)
    ensures
        r@ == resolve_spec(location@, reference@),
{
    if reference.len() > 0 && reference[0] == '/' {
        return chars_to_string(reference);
    }
    let joined = join_to_directory(location, reference);
    let normalized = normalize_path(&joined);
    chars_to_string(&normalized)
}

} // verus!
