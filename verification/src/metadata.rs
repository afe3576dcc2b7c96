//! The metadata extractor: bibliographic fields and the cover image of
//! a container, with placeholder defaults where the package names none.

use vstd::prelude::*;
use crate::bindings;
use crate::container::Container;
use crate::errors::{ExtractError, ReadError};
use crate::manifest::find_image_spec;
use crate::text::{is_at, matches_at, to_chars};

verus! {

/// One container's bibliographic record.
pub struct BookMetadata {
    pub title: String,
    pub authors: Vec<String>,
    pub published_date: Option<String>,
    pub publishers: Vec<String>,
    pub isbn: Option<String>,
    pub file_path: String,
    pub cover_data: Option<(Vec<u8>, String)>,
}

/// The placeholder title of a container that names none.
pub open spec fn unknown_title() -> Seq<char> {
    "Unknown Title"@
}

/// The placeholder author of a container that names none.
pub open spec fn unknown_author() -> Seq<char> {
    "Unknown Author"@
}

/// The placeholder publisher of a container that names none.
pub open spec fn unknown_publisher() -> Seq<char> {
    "Unknown Publisher"@
}

/// The scheme marker of an identifier recognizable as an ISBN.
pub open spec fn isbn_marker() -> Seq<char> {
    "urn:isbn:"@
}

/// Whether an identifier is recognizable as an ISBN.
pub open spec fn is_isbn_id(id: Seq<char>) -> bool {
    is_at(id, 0, isbn_marker())
}

/// The first identifier recognizable as an ISBN, if any.
pub open spec fn first_isbn_spec(ids: Seq<Seq<char>>) -> Option<Seq<char>>
    decreases ids.len(),
{
    if ids.len() == 0 {
        None
    } else if is_isbn_id(ids[0]) {
        Some(ids[0])
    } else {
        first_isbn_spec(ids.drop_first())
    }
}

proof fn lemma_first_isbn_step(ids: Seq<Seq<char>>, i: int)
    requires
        0 <= i < ids.len(),
        is_isbn_id(ids[i]),
        forall|j: int| 0 <= j < i ==> !is_isbn_id(#[trigger] ids[j]),
    ensures
        first_isbn_spec(ids) == Some(ids[i]),
    decreases ids.len(),
{
    if i > 0 {
        lemma_first_isbn_step(ids.drop_first(), i - 1);
    }
}

proof fn lemma_first_isbn_none(ids: Seq<Seq<char>>)
    requires
        forall|j: int| 0 <= j < ids.len() ==> !is_isbn_id(#[trigger] ids[j]),
    ensures
        first_isbn_spec(ids) is None,
    decreases ids.len(),
{
    if ids.len() > 0 {
        lemma_first_isbn_none(ids.drop_first());
    }
}

/// Selects the first identifier recognizable as an ISBN.
pub fn first_isbn(identifiers: &Vec<String>) -> (r: Option<String>)
    ensures
        r.deep_view() == first_isbn_spec(identifiers.deep_view()),
{
    let marker = to_chars("urn:isbn:");
    let mut i: usize = 0;
    while i < identifiers.len()
        invariant
            i <= identifiers@.len(),
            marker@ == isbn_marker(),
            forall|j: int| 0 <= j < i ==> !is_isbn_id(#[trigger] identifiers.deep_view()[j]),
        decreases identifiers@.len() - i,
    {
        let cand = to_chars(identifiers[i].as_str());
        proof {
            assert(identifiers@[i as int].deep_view() == identifiers.deep_view()[i as int]);
        }
        if matches_at(&cand, 0, &marker) {
            proof {
                lemma_first_isbn_step(identifiers.deep_view(), i as int);
            }
            return Some(identifiers[i].clone());
        }
        i = i + 1;
    }
    proof {
        lemma_first_isbn_none(identifiers.deep_view());
    }
    None
}

/// Assembles the metadata record from the raw package fields: a missing
/// title, an empty creator list and an empty publisher list each fall
/// back to their placeholder; the ISBN is the first identifier carrying
/// the ISBN scheme marker; date, cover and path pass through unchanged.
pub fn build_metadata(
    title: Option<String>,
    creators: Vec<String>,
    publishers: Vec<String>,
    published_date: Option<String>,
    identifiers: &Vec<String>,
    cover_data: Option<(Vec<u8>, String)>,
    file_path: String,
) -> (r: BookMetadata)
    ensures
        r.title@ == (match title {
            Some(t) => t@,
            None => unknown_title(),
        }),
        r.authors.deep_view() == if creators@.len() == 0 {
            seq![unknown_author()]
        } else {
            creators.deep_view()
        },
        r.publishers.deep_view() == if publishers@.len() == 0 {
            seq![unknown_publisher()]
        } else {
            publishers.deep_view()
        },
        r.authors@.len() >= 1,
        r.publishers@.len() >= 1,
        r.published_date == published_date,
        r.isbn.deep_view() == first_isbn_spec(identifiers.deep_view()),
        r.cover_data == cover_data,
        r.file_path == file_path,
{
    let title = match title {
        Some(t) => t,
        None => String::from_str("Unknown Title"),
    };
    let mut authors = creators;
    if authors.len() == 0 {
        authors.push(String::from_str("Unknown Author"));
        proof {
            assert(authors.deep_view() =~= seq![unknown_author()]);
        }
    }
    let mut publishers = publishers;
    if publishers.len() == 0 {
        publishers.push(String::from_str("Unknown Publisher"));
        proof {
            assert(publishers.deep_view() =~= seq![unknown_publisher()]);
        }
    }
    let isbn = first_isbn(identifiers);
    BookMetadata {
        title,
        authors,
        published_date,
        publishers,
        isbn,
        file_path,
        cover_data,
    }
}

/// Maps the outcome of reading the chosen cover entry's bytes to the
/// cover field: readable bytes become the cover, paired with the
/// entry's media type; a read failure leaves the cover absent rather
/// than failing the extraction.
pub fn cover_from(media_type: String, read: Result<Vec<u8>, ReadError>) -> (r: Option<(Vec<u8>, String)>)
    ensures
        r == (match read {
            Ok(bytes) => Some((bytes, media_type)),
            Err(_) => None::<(Vec<u8>, String)>,
        }),
{
    match read {
        Ok(bytes) => Some((bytes, media_type)),
        Err(_) => None,
    }
}

/// Parses the metadata of the container at `path`. The only failure is
/// an unopenable container; a missing or unreadable cover image leaves
/// the cover absent, and absent fields fall back to placeholders, so a
/// successful record always carries at least one author and one
/// publisher and the path it was asked about. The body is glue around
/// the outside calls: every decision about what came back stands in
/// `first_image`, `cover_from`, `first_isbn` and `build_metadata`, each
/// under an exact contract.
pub fn parse_epub_meta(path: &str) -> (r: Result<BookMetadata, ExtractError>)
    ensures
        r matches Ok(m) ==> {
            &&& m.authors@.len() >= 1
            &&& m.publishers@.len() >= 1
            &&& m.file_path@ == path@
        },
        r is Err ==> r->Err_0 is Open,
{
    let container = match Container::open(path) {
        Err(e) => {
            return Err(ExtractError::Open(e));
        },
        Ok(c) => c,
    };
    let title = bindings::meta_title(&container.handle);
    let creators = bindings::meta_creators(&container.handle);
    let publishers = bindings::meta_publishers(&container.handle);
    let published_date = bindings::meta_published(&container.handle);
    let identifiers = bindings::meta_identifiers(&container.handle);
    let cover_data = match container.manifest.first_image() {
        None => None,
        Some(entry) => {
            let media_type = entry.media_type.clone();
            let read = container.read_bytes(entry.location.as_str());
            cover_from(media_type, read)
        },
    };
    Ok(build_metadata(
        title,
        creators,
        publishers,
        published_date,
        &identifiers,
        cover_data,
        String::from_str(path),
    ))
}

} // verus!
