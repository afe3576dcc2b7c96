//! The trusted boundary to the outside crates that the pipeline calls:
//! rbook for the container format, base64 for inline data payloads, and
//! scraper for body extraction. Verus believes the contracts stated here;
//! each doc comment names the outside items relied on.

use vstd::prelude::*;
use crate::errors::{OpenError, ReadError};
use crate::manifest::{Manifest, ManifestEntry};

verus! {

#[verifier::external_type_specification]
#[verifier::external_body]
pub struct ExEpub(rbook::Epub);

/// The base64 encoding of a byte sequence with the standard alphabet and
/// padding; it depends on the bytes alone.
pub uninterp spec fn base64_of(bytes: Seq<u8>) -> Seq<char>;

/// Relies on base64's `Engine::encode` with the
/// `engine::general_purpose::STANDARD` engine: the encoding is a function
/// of the input bytes alone. The length bound keeps the output length
/// computation inside `encode` from overflowing.
#[verifier::external_body]
pub(crate) fn encode_base64(bytes: &Vec<u8>) -> (r: String)
    requires
        bytes@.len() <= usize::MAX / 2,
    ensures
        r@ == base64_of(bytes@),
{
    base64::Engine::encode(&base64::engine::general_purpose::STANDARD, bytes)
}

/// The inner markup of the first `body` element of the parsed document,
/// if the document tree has one; parsing is deterministic, so it is a
/// function of the document text alone.
pub uninterp spec fn body_inner_of(document: Seq<char>) -> Option<Seq<char>>;

/// Relies on scraper's `Html::parse_document`, `Selector::parse` (on the
/// constant selector `"body"`, which always parses) and
/// `ElementRef::inner_html`: all deterministic in the document text.
#[verifier::external_body]
pub(crate) fn extract_body(document: &str) -> (r: Option<String>)
    ensures
        r.deep_view() == body_inner_of(document@),
{
    let tree = scraper::Html::parse_document(document);
    let selector = scraper::Selector::parse("body").ok()?;
    let first = tree.select(&selector).next()?;
    Some(first.inner_html())
}

/// Relies on rbook's `Epub::open`: opens the archive at `path` and parses
/// its package document. What comes back depends on the file system, so
/// nothing is promised of the result. rbook's error classes are folded
/// into the library's open-failure taxonomy: `UnreadableArchive` covers
/// both a missing file and an unopenable one, so it is split on the
/// underlying I/O error's kind; every other archive or reader failure
/// is corrupt, and a package that does not parse is an unsupported
/// format.
#[verifier::external_body]
pub(crate) fn open_epub(path: &str) -> (r: Result<rbook::Epub, OpenError>)
{
    rbook::Epub::open(path).map_err(|e| match e {
        rbook::ebook::errors::EbookError::Io(ref io)
            if io.kind() == std::io::ErrorKind::NotFound => OpenError::NotFound,
        rbook::ebook::errors::EbookError::Io(_) => OpenError::Corrupt,
        rbook::ebook::errors::EbookError::Archive(
            rbook::ebook::errors::ArchiveError::UnreadableArchive { ref source, .. },
        ) if source.kind() == std::io::ErrorKind::NotFound => OpenError::NotFound,
        rbook::ebook::errors::EbookError::Archive(_) => OpenError::Corrupt,
        rbook::ebook::errors::EbookError::Reader(_) => OpenError::Corrupt,
        rbook::ebook::errors::EbookError::Format(_) => OpenError::UnsupportedFormat,
        _ => OpenError::Corrupt,
    })
}

/// Relies on rbook's `EpubManifest::iter`, `EpubManifestEntry::{id, href,
/// media_type}`, `EpubSpine::iter` and `EpubSpineEntry::idref`: copies the
/// parsed resource table (with resolved absolute locations) and reading
/// sequence into the library's manifest model, in rbook's order. The
/// contents depend on the opened file, so nothing is promised of them.
#[verifier::external_body]
pub(crate) fn manifest_model(epub: &rbook::Epub) -> (r: Manifest)
{
    let entries = epub.manifest().iter().map(|e| ManifestEntry {
        id: e.id().to_string(),
        location: e.href().as_str().to_string(),
        media_type: e.media_type().to_string(),
    }).collect();
    let spine = epub.spine().iter().map(|s| s.idref().to_string()).collect();
    Manifest { entries, spine }
}

/// Relies on rbook's `EpubManifest::by_id` and
/// `EpubManifestEntry::read_str`: decodes the entry's bytes as text.
/// rbook's archive error classes are folded into the library's read-failure
/// taxonomy, one arm each.
#[verifier::external_body]
pub(crate) fn read_text(epub: &rbook::Epub, id: &str) -> (r: Result<String, ReadError>)
{
    match epub.manifest().by_id(id) {
        None => Err(ReadError::NotFound),
        Some(e) => e.read_str().map_err(|err| match err {
            rbook::ebook::errors::ArchiveError::InvalidUtf8Resource { .. } => ReadError::NotText,
            rbook::ebook::errors::ArchiveError::InvalidResource { .. } => ReadError::NotFound,
            rbook::ebook::errors::ArchiveError::CannotRead { .. } => ReadError::Unreadable,
            _ => ReadError::Unreadable,
        }),
    }
}

/// Relies on rbook's `EpubManifest::by_href` and
/// `EpubManifestEntry::read_bytes`: returns the raw bytes of the resource
/// at the given location, with read failures folded as in `read_text`.
#[verifier::external_body]
pub(crate) fn read_bytes(epub: &rbook::Epub, location: &str) -> (r: Result<Vec<u8>, ReadError>)
{
    match epub.manifest().by_href(location) {
        None => Err(ReadError::NotFound),
        Some(e) => e.read_bytes().map_err(|err| match err {
            rbook::ebook::errors::ArchiveError::InvalidUtf8Resource { .. } => ReadError::NotText,
            rbook::ebook::errors::ArchiveError::InvalidResource { .. } => ReadError::NotFound,
            rbook::ebook::errors::ArchiveError::CannotRead { .. } => ReadError::Unreadable,
            _ => ReadError::Unreadable,
        }),
    }
}

/// Relies on rbook's `EpubMetadata::title` and `EpubTitle::value`: the
/// container's title entry, if any.
#[verifier::external_body]
pub(crate) fn meta_title(epub: &rbook::Epub) -> (r: Option<String>)
{
    epub.metadata().title().map(|t| t.value().to_string())
}

/// Relies on rbook's `EpubMetadata::creators` and
/// `EpubContributor::value`: the creator entries, in document order.
#[verifier::external_body]
pub(crate) fn meta_creators(epub: &rbook::Epub) -> (r: Vec<String>)
{
    epub.metadata().creators().map(|c| c.value().to_string()).collect()
}

/// Relies on rbook's `EpubMetadata::publishers` and
/// `EpubContributor::value`: the publisher entries, in document order.
#[verifier::external_body]
pub(crate) fn meta_publishers(epub: &rbook::Epub) -> (r: Vec<String>)
{
    epub.metadata().publishers().map(|p| p.value().to_string()).collect()
}

/// Relies on rbook's `EpubMetadata::published` and `DateTime`'s display
/// form: the publication date, passed through as text.
#[verifier::external_body]
pub(crate) fn meta_published(epub: &rbook::Epub) -> (r: Option<String>)
{
    epub.metadata().published().map(|d| d.to_string())
}

/// Relies on rbook's `EpubMetadata::identifiers` and
/// `EpubIdentifier::value`: the identifier entries, in document order.
#[verifier::external_body]
pub(crate) fn meta_identifiers(epub: &rbook::Epub) -> (r: Vec<String>)
{
    epub.metadata().identifiers().map(|i| i.value().to_string()).collect()
}

} // verus!
