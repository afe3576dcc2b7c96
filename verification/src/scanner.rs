//! The library scanner: discovering container files under a root
//! directory. The walk itself is the file system's answer; the
//! extension filter on what came back is verified.

use vstd::prelude::*;
use crate::paths::last_index_of;

verus! {

/// ASCII upper-case letters folded to lower case; other characters kept.
pub open spec fn ascii_lower(c: char) -> char {
    if 'A' <= c && c <= 'Z' {
        (((c as u8) + 32) as char)
    } else {
        c
    }
}

/// Character-wise ASCII-case-insensitive equality.
pub open spec fn eq_ignore_ascii_case_spec(a: Seq<char>, b: Seq<char>) -> bool {
    a.len() == b.len() && forall|i: int| 0 <= i < a.len() ==> ascii_lower(a[i]) == ascii_lower(b[i])
}

/// The extension of the final path component: the part after the last
/// `.` of the file name, provided that dot is neither its first
/// character nor absent.
pub open spec fn extension_of(path: Seq<char>) -> Option<Seq<char>> {
    let name = match last_index_of(path, '/') {
        None => path,
        Some(k) => path.skip(k + 1),
    };
    match last_index_of(name, '.') {
        None => None,
        Some(d) => if d == 0 {
            None
        } else {
            Some(name.skip(d + 1))
        },
    }
}

/// Whether a path names a container file: its extension is `epub`,
/// compared case-insensitively.
pub open spec fn is_epub_path(path: Seq<char>) -> bool {
    match extension_of(path) {
        None => false,
        Some(ext) => eq_ignore_ascii_case_spec(ext, "epub"@),
    }
}

/// Finds the last occurrence of `c` in `s`.
fn rfind_char(s: &Vec<char>, c: char) -> (r: Option<usize>)
    ensures
        match r {
            None => last_index_of(s@, c) is None,
            Some(k) => k < s@.len() && last_index_of(s@, c) == Some(k as int),
        },
        s@.len() <= usize::MAX,
{
    let n = s.len();
    let mut i = n;
    let mut hit: Option<usize> = None;
    while i > 0 && hit.is_none()
        invariant
            i <= s@.len(),
            match hit {
                None => forall|j: int| i <= j < s@.len() ==> s@[j] != c,
                Some(k) => k < s@.len() && s@[k as int] == c
                    && forall|j: int| k < j < s@.len() ==> s@[j] != c,
            },
        decreases i,
    {
        i = i - 1;
        if s[i] == c {
            hit = Some(i);
        }
    }
    proof {
        match hit {
            None => {
                crate::paths::lemma_last_index_miss(s@, c);
            },
            Some(k) => {
                crate::paths::lemma_last_index_hit(s@, c, k as int);
            },
        }
    }
    hit
}

/// Reports whether the path names a container file, by its extension,
/// case-insensitively.
pub fn is_epub_file(path: &str) -> (r: bool)
    ensures
        r == is_epub_path(path@),
{
    let chars = crate::text::to_chars(path);
    let name: Vec<char> = match rfind_char(&chars, '/') {
        None => chars,
        Some(k) => {
            let mut tail: Vec<char> = Vec::new();
            let mut m = k + 1;
            while m < chars.len()
                invariant
                    k + 1 <= m <= chars@.len(),
                    k < chars@.len(),
                    tail@ == chars@.subrange(k + 1, m as int),
                decreases chars@.len() - m,
            {
                tail.push(chars[m]);
                proof {
                    assert(tail@ =~= chars@.subrange(k + 1, m + 1));
                }
                m = m + 1;
            }
            proof {
                assert(tail@ =~= chars@.skip(k + 1));
            }
            tail
        },
    };
    let d = match rfind_char(&name, '.') {
        None => {
            return false;
        },
        Some(d) => d,
    };
    if d == 0 {
        return false;
    }
    if name.len() - d - 1 != 4 {
        proof {
            assert(name@.skip(d + 1).len() != 4);
            assert(!eq_ignore_ascii_case_spec(name@.skip(d + 1), "epub"@)) by {
                reveal_strlit("epub");
            }
        }
        return false;
    }
    let expected: Vec<char> = vec!['e', 'p', 'u', 'b'];
    let mut i: usize = 0;
    let mut all = true;
    while i < 4
        invariant
            i <= 4,
            name@.len() <= usize::MAX,
            d + 1 + 4 == name@.len(),
            d + 1 + i <= name@.len(),
            expected@ == seq!['e', 'p', 'u', 'b'],
            all == forall|j: int| 0 <= j < i
                ==> ascii_lower(name@.skip(d + 1)[j]) == ascii_lower(expected@[j]),
        decreases 4 - i,
    {
        let c = name[d + 1 + i];
        let folded: char = if 'A' <= c && c <= 'Z' {
            (((c as u8) + 32) as char)
        } else {
            c
        };
        if folded != expected[i] {
            all = false;
        }
        proof {
            assert(name@.skip(d + 1)[i as int] == name@[d + 1 + i]);
            assert(ascii_lower(expected@[i as int]) == expected@[i as int]);
        }
        i = i + 1;
    }
    proof {
        reveal_strlit("epub");
        assert("epub"@ =~= seq!['e', 'p', 'u', 'b']);
        assert(name@.skip(d + 1).len() == 4);
        if all {
            assert(eq_ignore_ascii_case_spec(name@.skip(d + 1), "epub"@));
        } else {
            assert(!eq_ignore_ascii_case_spec(name@.skip(d + 1), "epub"@));
        }
    }
    all
}

/// The paths of the regular files among `entries` whose extension is
/// `epub`, case-insensitively, in order.
pub open spec fn filter_epubs_from(entries: Seq<(Seq<char>, bool)>, i: int) -> Seq<Seq<char>>
    decreases entries.len() - i,
    when 0 <= i <= entries.len()
{
    if i == entries.len() {
        Seq::empty()
    } else {
        (if entries[i].1 && is_epub_path(entries[i].0) {
            seq![entries[i].0]
        } else {
            Seq::<Seq<char>>::empty()
        }) + filter_epubs_from(entries, i + 1)
    }
}

/// Every path kept by the filter has the container extension.
pub proof fn lemma_filter_epubs_all(entries: Seq<(Seq<char>, bool)>, i: int)
    requires
        0 <= i <= entries.len(),
    ensures
        forall|j: int| 0 <= j < filter_epubs_from(entries, i).len()
            ==> is_epub_path(#[trigger] filter_epubs_from(entries, i)[j]),
    decreases entries.len() - i,
{
    if i < entries.len() {
        lemma_filter_epubs_all(entries, i + 1);
        let head = if entries[i].1 && is_epub_path(entries[i].0) {
            seq![entries[i].0]
        } else {
            Seq::<Seq<char>>::empty()
        };
        let rest = filter_epubs_from(entries, i + 1);
        assert forall|j: int| 0 <= j < filter_epubs_from(entries, i).len()
            implies is_epub_path(#[trigger] filter_epubs_from(entries, i)[j]) by {
            if j < head.len() {
                assert(filter_epubs_from(entries, i)[j] == entries[i].0);
            } else {
                assert(filter_epubs_from(entries, i)[j] == rest[j - head.len()]);
            }
        }
    }
}

/// Keeps exactly the regular files with the container extension, in the
/// order they were listed.
pub fn filter_epub_paths(entries: &Vec<(String, bool)>) -> (r: Vec<String>)
    ensures
        r.deep_view() == filter_epubs_from(entries.deep_view(), 0),
{
    let mut out: Vec<String> = Vec::new();
    let mut i: usize = 0;
    while i < entries.len()
        invariant
            i <= entries@.len(),
            entries.deep_view().len() == entries@.len(),
            out.deep_view() + filter_epubs_from(entries.deep_view(), i as int)
                == filter_epubs_from(entries.deep_view(), 0),
        decreases entries@.len() - i,
    {
        proof {
            assert(entries@[i as int].deep_view() == entries.deep_view()[i as int]);
        }
        let keep = entries[i].1 && is_epub_file(entries[i].0.as_str());
        if keep {
            let ghost old_deep = out.deep_view();
            out.push(entries[i].0.clone());
            proof {
                assert(out.deep_view() =~= old_deep.push(entries.deep_view()[i as int].0));
                assert(old_deep.push(entries.deep_view()[i as int].0)
                    + filter_epubs_from(entries.deep_view(), i + 1)
                    =~= old_deep + (seq![entries.deep_view()[i as int].0]
                        + filter_epubs_from(entries.deep_view(), i + 1)));
            }
        }
        i = i + 1;
    }
    proof {
        assert(out.deep_view() =~= filter_epubs_from(entries.deep_view(), 0));
    }
    out
}

/// Relies on walkdir's `WalkDir::new` and its iterator: lists the tree
/// under `root`, skipping entries that could not be read, each with
/// whether it is a regular file. What comes back depends on the file
/// system, so nothing is promised of it.
#[verifier::external_body]
fn walk_entries(root: &str) -> (r: Vec<(String, bool)>)
{
    walkdir::WalkDir::new(root)
        .into_iter()
        .filter_map(|e| e.ok())
        .map(|e| (e.path().to_string_lossy().into_owned(), e.file_type().is_file()))
        .collect()
}

/// Scans for container files under `dir`: walks the tree and keeps the
/// regular files whose extension is `epub`, case-insensitively. Every
/// returned path has that extension; which files are seen at all is the
/// file system's answer.
pub fn scan_epubs(dir: &str) -> (r: Vec<String>)
    ensures
        forall|j: int| 0 <= j < r@.len() ==> is_epub_path(#[trigger] r.deep_view()[j]),
{
    let entries = walk_entries(dir);
    let r = filter_epub_paths(&entries);
    proof {
        lemma_filter_epubs_all(entries.deep_view(), 0);
    }
    r
}

} // verus!
