//! The manifest model: a container's resource table and its ordered
//! reading sequence, with pure first-match lookups.

use vstd::prelude::*;
use crate::text::is_at;

verus! {

/// One resource of the container: its identifier, its location inside
/// the archive (as a `/`-separated absolute path), and its media type.
pub struct ManifestEntry {
    pub id: String,
    pub location: String,
    pub media_type: String,
}

/// The resource table and the ordered reading sequence of one container.
pub struct Manifest {
    pub entries: Vec<ManifestEntry>,
    pub spine: Vec<String>,
}

/// The index of the first entry satisfying `p`, if any.
pub open spec fn find_first(entries: Seq<ManifestEntry>, p: spec_fn(ManifestEntry) -> bool) -> Option<int>
    decreases entries.len(),
{
    if entries.len() == 0 {
        None
    } else if p(entries[0]) {
        Some(0)
    } else {
        match find_first(entries.drop_first(), p) {
            None => None,
            Some(k) => Some(k + 1),
        }
    }
}

/// The index of the first entry with the given identifier.
pub open spec fn find_by_id_spec(entries: Seq<ManifestEntry>, id: Seq<char>) -> Option<int> {
    find_first(entries, |e: ManifestEntry| e.id@ == id)
}

/// The index of the first entry at the given location.
pub open spec fn find_by_location_spec(entries: Seq<ManifestEntry>, location: Seq<char>) -> Option<int> {
    find_first(entries, |e: ManifestEntry| e.location@ == location)
}

/// The media type prefix of image resources.
pub open spec fn image_prefix() -> Seq<char> {
    seq!['i', 'm', 'a', 'g', 'e', '/']
}

/// Whether a media type names an image resource.
pub open spec fn is_image_type(media_type: Seq<char>) -> bool {
    is_at(media_type, 0, image_prefix())
}

/// The index of the first entry whose media type is an image type.
pub open spec fn find_image_spec(entries: Seq<ManifestEntry>) -> Option<int> {
    find_first(entries, |e: ManifestEntry| is_image_type(e.media_type@))
}

pub proof fn lemma_find_first_hit(entries: Seq<ManifestEntry>, p: spec_fn(ManifestEntry) -> bool, i: int)
    requires
        0 <= i < entries.len(),
        p(entries[i]),
        forall|j: int| 0 <= j < i ==> !p(#[trigger] entries[j]),
    ensures
        find_first(entries, p) == Some(i),
    decreases entries.len(),
{
    if i == 0 {
    } else {
        lemma_find_first_hit(entries.drop_first(), p, i - 1);
    }
}

pub proof fn lemma_find_first_miss(entries: Seq<ManifestEntry>, p: spec_fn(ManifestEntry) -> bool)
    requires
        forall|j: int| 0 <= j < entries.len() ==> !p(#[trigger] entries[j]),
    ensures
        find_first(entries, p) is None,
    decreases entries.len(),
{
    if entries.len() > 0 {
        lemma_find_first_miss(entries.drop_first(), p);
    }
}

impl Manifest {
    /// Looks up the first entry with the given identifier; `None` when no
    /// entry carries it.
    pub fn lookup_by_id(&self, id: &str) -> (r: Option<&ManifestEntry>)
        ensures
            match r {
                Some(e) => {
                    &&& find_by_id_spec(self.entries@, id@) is Some
                    &&& *e == self.entries@[find_by_id_spec(self.entries@, id@)->Some_0]
                },
                None => find_by_id_spec(self.entries@, id@) is None,
            },
    {
        let needle = String::from_str(id);
        let ghost p = |e: ManifestEntry| e.id@ == id@;
        let mut i: usize = 0;
        while i < self.entries.len()
            invariant
                i <= self.entries@.len(),
                needle@ == id@,
                forall|j: int| 0 <= j < i ==> !p(#[trigger] self.entries@[j]),
                p == (|e: ManifestEntry| e.id@ == id@),
            decreases self.entries@.len() - i,
        {
            if self.entries[i].id == needle {
                proof {
                    lemma_find_first_hit(self.entries@, p, i as int);
                }
                return Some(&self.entries[i]);
            }
            i = i + 1;
        }
        proof {
            lemma_find_first_miss(self.entries@, p);
        }
        None
    }

    /// Looks up the first entry stored at the given location; `None` when
    /// no entry lies there.
    pub fn lookup_by_location(&self, location: &str) -> (r: Option<&ManifestEntry>)
        ensures
            match r {
                Some(e) => {
                    &&& find_by_location_spec(self.entries@, location@) is Some
                    &&& *e == self.entries@[find_by_location_spec(self.entries@, location@)->Some_0]
                },
                None => find_by_location_spec(self.entries@, location@) is None,
            },
    {
        let needle = String::from_str(location);
        let ghost p = |e: ManifestEntry| e.location@ == location@;
        let mut i: usize = 0;
        while i < self.entries.len()
            invariant
                i <= self.entries@.len(),
                needle@ == location@,
                forall|j: int| 0 <= j < i ==> !p(#[trigger] self.entries@[j]),
                p == (|e: ManifestEntry| e.location@ == location@),
            decreases self.entries@.len() - i,
        {
            if self.entries[i].location == needle {
                proof {
                    lemma_find_first_hit(self.entries@, p, i as int);
                }
                return Some(&self.entries[i]);
            }
            i = i + 1;
        }
        proof {
            lemma_find_first_miss(self.entries@, p);
        }
        None
    }

    /// The first entry whose media type is an image type, in manifest
    /// order; `None` when the container has no image resource.
    pub fn first_image(&self) -> (r: Option<&ManifestEntry>)
        ensures
            match r {
                Some(e) => {
                    &&& find_image_spec(self.entries@) is Some
                    &&& *e == self.entries@[find_image_spec(self.entries@)->Some_0]
                },
                None => find_image_spec(self.entries@) is None,
            },
    {
        let prefix: Vec<char> = vec!['i', 'm', 'a', 'g', 'e', '/'];
        proof {
            assert(prefix@ =~= image_prefix());
        }
        let ghost p = |e: ManifestEntry| is_image_type(e.media_type@);
        let mut i: usize = 0;
        while i < self.entries.len()
            invariant
                i <= self.entries@.len(),
                prefix@ == image_prefix(),
                forall|j: int| 0 <= j < i ==> !p(#[trigger] self.entries@[j]),
                p == (|e: ManifestEntry| is_image_type(e.media_type@)),
            decreases self.entries@.len() - i,
        {
            let mt = crate::text::to_chars(self.entries[i].media_type.as_str());
            if crate::text::matches_at(&mt, 0, &prefix) {
                proof {
                    lemma_find_first_hit(self.entries@, p, i as int);
                }
                return Some(&self.entries[i]);
            }
            i = i + 1;
        }
        proof {
            lemma_find_first_miss(self.entries@, p);
        }
        None
    }

    /// The ordered reading sequence of entry identifiers.
    pub fn reading_sequence(&self) -> (r: &Vec<String>)
        ensures
            r@ == self.spine@,
    {
        &self.spine
    }
}

} // verus!
