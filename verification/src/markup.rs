//! Scanning markup for image references: the `src="..."` attribute values
//! of `<img` tags, in document order.

use vstd::prelude::*;
use crate::text::{copy_range, find_from, find_from_spec, is_at, lemma_find_some, matches_at};

verus! {

/// The four characters opening an image tag.
pub open spec fn img_open() -> Seq<char> {
    seq!['<', 'i', 'm', 'g']
}

/// The marker introducing a quoted source attribute value.
pub open spec fn src_marker() -> Seq<char> {
    seq!['s', 'r', 'c', '=', '"']
}

/// The character closing a tag.
pub open spec fn tag_close() -> Seq<char> {
    seq!['>']
}

/// The closing quote of an attribute value.
pub open spec fn quote_mark() -> Seq<char> {
    seq!['"']
}

/// The prefix of a reference that is already an inline data reference.
pub open spec fn data_prefix() -> Seq<char> {
    seq!['d', 'a', 't', 'a', ':']
}

/// The source value carried by the image tag opening at `t` and closed by
/// the `>` at `e`: the first properly quoted, non-empty `src` attribute
/// value lying entirely inside the tag, if there is one.
pub open spec fn tag_src_spec(s: Seq<char>, t: int, e: int) -> Option<Seq<char>>
    recommends
        0 <= t,
        t + 4 <= s.len(),
        t + 4 <= e < s.len(),
{
    match find_from_spec(s, t + 4, src_marker()) {
        None => None,
        Some(p) => if !(p > t + 4 && p + 5 <= e) {
            None
        } else {
            match find_from_spec(s, p + 5, quote_mark()) {
                None => None,
                Some(q) => if p + 5 < q && q < e {
                    Some(s.subrange(p + 5, q))
                } else {
                    None
                },
            }
        },
    }
}

/// All image source values found scanning `s` from position `i`: for each
/// `<img` tag in turn, its source value if it carries one, continuing
/// after the tag's closing `>`. An unterminated tag ends the scan.
pub open spec fn scan_srcs_spec(s: Seq<char>, i: int) -> Seq<Seq<char>>
    decreases s.len() - i,
    when 0 <= i <= s.len()
    via scan_srcs_spec_decreases
{
    match find_from_spec(s, i, img_open()) {
        None => Seq::empty(),
        Some(t) => match find_from_spec(s, t + 4, tag_close()) {
            None => Seq::empty(),
            Some(e) => match tag_src_spec(s, t, e) {
                None => scan_srcs_spec(s, e + 1),
                Some(src) => seq![src] + scan_srcs_spec(s, e + 1),
            },
        },
    }
}

#[via_fn]
proof fn scan_srcs_spec_decreases(s: Seq<char>, i: int) {
    match find_from_spec(s, i, img_open()) {
        None => {},
        Some(t) => {
            lemma_find_some(s, i, img_open());
            match find_from_spec(s, t + 4, tag_close()) {
                None => {},
                Some(e) => {
                    lemma_find_some(s, t + 4, tag_close());
                },
            }
        },
    }
}

/// All image source values of the document, in document order.
pub open spec fn image_srcs(s: Seq<char>) -> Seq<Seq<char>> {
    scan_srcs_spec(s, 0)
}

/// Every source value the scan yields is a non-empty substring of the
/// document: it occurs in `s` at some position.
pub proof fn lemma_scanned_srcs_occur(s: Seq<char>, i: int)
    requires
        0 <= i <= s.len(),
    ensures
        forall|j: int| 0 <= j < scan_srcs_spec(s, i).len()
            ==> (#[trigger] scan_srcs_spec(s, i)[j]).len() > 0
                && exists|k: int| is_at(s, k, scan_srcs_spec(s, i)[j]),
    decreases s.len() - i,
{
    match find_from_spec(s, i, img_open()) {
        None => {},
        Some(t) => {
            lemma_find_some(s, i, img_open());
            match find_from_spec(s, t + 4, tag_close()) {
                None => {},
                Some(e) => {
                    lemma_find_some(s, t + 4, tag_close());
                    lemma_scanned_srcs_occur(s, e + 1);
                    let rest = scan_srcs_spec(s, e + 1);
                    match tag_src_spec(s, t, e) {
                        None => {},
                        Some(src) => {
                            lemma_find_some(s, t + 4, src_marker());
                            let p = find_from_spec(s, t + 4, src_marker())->Some_0;
                            lemma_find_some(s, p + 5, quote_mark());
                            let q = find_from_spec(s, p + 5, quote_mark())->Some_0;
                            assert(src == s.subrange(p + 5, q));
                            assert(is_at(s, p + 5, src));
                            assert forall|j: int| 0 <= j < scan_srcs_spec(s, i).len()
                                implies (#[trigger] scan_srcs_spec(s, i)[j]).len() > 0
                                    && exists|k: int| is_at(s, k, scan_srcs_spec(s, i)[j]) by {
                                if j == 0 {
                                    assert(scan_srcs_spec(s, i)[0] == src);
                                } else {
                                    assert(scan_srcs_spec(s, i)[j] == rest[j - 1]);
                                }
                            }
                        },
                    }
                },
            }
        },
    }
}

/// Finds every image source value of the document, in document order.
pub fn find_image_srcs(s: &Vec<char>) -> (r: Vec<Vec<char>>)
    ensures
        r.deep_view() == image_srcs(s@),
{
    let img: Vec<char> = vec!['<', 'i', 'm', 'g'];
    let gtv: Vec<char> = vec!['>'];
    let srcm: Vec<char> = vec!['s', 'r', 'c', '=', '"'];
    let quo: Vec<char> = vec!['"'];
    proof {
        assert(img@ =~= img_open());
        assert(gtv@ =~= tag_close());
        assert(srcm@ =~= src_marker());
        assert(quo@ =~= quote_mark());
    }
    let mut out: Vec<Vec<char>> = Vec::new();
    let mut pos: usize = 0;
    let n = s.len();
    loop
        invariant
            pos <= s@.len(),
            s@.len() <= usize::MAX,
            img@ == img_open(),
            gtv@ == tag_close(),
            srcm@ == src_marker(),
            quo@ == quote_mark(),
            out.deep_view() + scan_srcs_spec(s@, pos as int) == image_srcs(s@),
        decreases s@.len() - pos,
    {
        let t = match find_from(s, pos, &img) {
            None => {
                proof {
                    assert(out.deep_view() =~= image_srcs(s@));
                }
                return out;
            },
            Some(t) => t,
        };
        proof {
            lemma_find_some(s@, pos as int, img_open());
        }
        let e = match find_from(s, t + 4, &gtv) {
            None => {
                proof {
                    assert(out.deep_view() =~= image_srcs(s@));
                }
                return out;
            },
            Some(e) => e,
        };
        proof {
            lemma_find_some(s@, t + 4 as int, tag_close());
        }
        let mut found: Option<Vec<char>> = None;
        match find_from(s, t + 4, &srcm) {
            None => {},
            Some(p) => {
                proof {
                    lemma_find_some(s@, t + 4 as int, src_marker());
                }
                if p > t + 4 && p + 5 <= e {
                    match find_from(s, p + 5, &quo) {
                        None => {},
                        Some(q) => {
                            if p + 5 < q && q < e {
                                found = Some(copy_range(s, p + 5, q));
                            }
                        },
                    }
                }
            },
        }
        match found {
            None => {
                proof {
                    assert(tag_src_spec(s@, t as int, e as int) is None);
                }
            },
            Some(sv) => {
                proof {
                    assert(tag_src_spec(s@, t as int, e as int) == Some(sv@));
                }
                let ghost old_deep = out.deep_view();
                out.push(sv);
                proof {
                    assert(sv.deep_view() =~= sv@);
                    assert(out.deep_view() =~= old_deep.push(sv@));
                    assert(old_deep.push(sv@) + scan_srcs_spec(s@, e + 1 as int)
                        =~= old_deep + (seq![sv@] + scan_srcs_spec(s@, e + 1 as int)));
                }
            },
        }
        pos = e + 1;
    }
}

} // verus!
