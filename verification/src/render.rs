//! The content renderer: walks the reading sequence, inlines resolvable
//! image references per document, extracts each document's body, and
//! concatenates the bodies in reading order.

use vstd::prelude::*;
use crate::bindings::{base64_of, body_inner_of, encode_base64, extract_body};
use crate::errors::RenderError;
use crate::manifest::{find_by_id_spec, find_by_location_spec, Manifest, ManifestEntry};
use crate::markup::{data_prefix, find_image_srcs, image_srcs};
use crate::paths::{resolve_relative, resolve_spec};
use crate::text::{chars_to_string, is_at, matches_at, replace_all, replace_all_spec, to_chars};

verus! {

/// The marker between the media type and the payload of a data URL.
pub open spec fn base64_marker() -> Seq<char> {
    seq![';', 'b', 'a', 's', 'e', '6', '4', ',']
}

/// The inline data reference for a payload of the given media type.
pub open spec fn data_url_spec(media_type: Seq<char>, payload: Seq<char>) -> Seq<char> {
    data_prefix() + media_type + base64_marker() + payload
}

/// A byte sequence short enough for its base64 encoding to exist.
pub open spec fn encodable(bytes: Seq<u8>) -> bool {
    bytes.len() <= usize::MAX / 2
}

/// Builds the inline data reference for the given payload.
pub fn build_data_url(media_type: &str, payload: &str) -> (r: Vec<char>)
    ensures
        r@ == data_url_spec(media_type@, payload@),
{
    let mut out: Vec<char> = vec!['d', 'a', 't', 'a', ':'];
    proof {
        assert(out@ =~= data_prefix());
    }
    let mut mt = to_chars(media_type);
    out.append(&mut mt);
    let mut marker: Vec<char> = vec![';', 'b', 'a', 's', 'e', '6', '4', ','];
    proof {
        assert(marker@ =~= base64_marker());
    }
    out.append(&mut marker);
    let mut pl = to_chars(payload);
    out.append(&mut pl);
    out
}

/// The replacement for one image reference of a document, if any: a
/// reference that is already inline, resolves to no manifest entry, or
/// whose bytes could not be read is left alone; otherwise the reference
/// is rewritten to a data URL holding the entry's media type and the
/// base64 encoding of the bytes that were read.
pub open spec fn substitution_spec(
    entries: Seq<crate::manifest::ManifestEntry>,
    location: Seq<char>,
    src: Seq<char>,
    read: Option<Seq<u8>>,
) -> Option<Seq<char>> {
    if is_at(src, 0, data_prefix()) {
        None
    } else {
        match find_by_location_spec(entries, resolve_spec(location, src)) {
            None => None,
            Some(k) => match read {
                None => None,
                Some(bytes) => if encodable(bytes) {
                    Some(data_url_spec(entries[k].media_type@, base64_of(bytes)))
                } else {
                    None
                },
            },
        }
    }
}

/// The outcome of the read attempt for the `i`-th image reference.
pub open spec fn read_at(reads: Seq<Option<Seq<u8>>>, i: int) -> Option<Seq<u8>> {
    if 0 <= i < reads.len() {
        reads[i]
    } else {
        None
    }
}

/// The document after applying, in order, the substitutions for the
/// references `srcs[i..]`: each applicable substitution replaces every
/// occurrence of its reference in the document rewritten so far.
pub open spec fn rewrite_from_spec(
    doc: Seq<char>,
    entries: Seq<crate::manifest::ManifestEntry>,
    location: Seq<char>,
    srcs: Seq<Seq<char>>,
    reads: Seq<Option<Seq<u8>>>,
    i: int,
) -> Seq<char>
    decreases srcs.len() - i,
    when 0 <= i <= srcs.len()
{
    if i == srcs.len() {
        doc
    } else {
        let next = match substitution_spec(entries, location, srcs[i], read_at(reads, i)) {
            None => doc,
            Some(rep) => replace_all_spec(doc, srcs[i], rep),
        };
        rewrite_from_spec(next, entries, location, srcs, reads, i + 1)
    }
}

/// The document with every image reference that resolves and was read
/// rewritten to an inline data reference, the rest left untouched.
pub open spec fn rewrite_spec(
    doc: Seq<char>,
    entries: Seq<crate::manifest::ManifestEntry>,
    location: Seq<char>,
    reads: Seq<Option<Seq<u8>>>,
) -> Seq<char> {
    rewrite_from_spec(doc, entries, location, image_srcs(doc), reads, 0)
}

/// Applies the image-inlining pass to one document, given the outcome of
/// the byte read for each of its image references, in reference order.
pub fn rewrite_images(
    doc: &Vec<char>,
    manifest: &Manifest,
    location: &Vec<char>,
    reads: &Vec<Option<Vec<u8>>>,
) -> (r: Vec<char>)
    ensures
        r@ == rewrite_spec(doc@, manifest.entries@, location@, reads.deep_view()),
{
    let srcs = find_image_srcs(doc);
    let datav: Vec<char> = vec!['d', 'a', 't', 'a', ':'];
    proof {
        assert(datav@ =~= data_prefix());
    }
    let mut cur = crate::text::copy_chars(doc);
    let mut i: usize = 0;
    while i < srcs.len()
        invariant
            i <= srcs@.len(),
            datav@ == data_prefix(),
            srcs.deep_view() == image_srcs(doc@),
            rewrite_spec(doc@, manifest.entries@, location@, reads.deep_view())
                == rewrite_from_spec(cur@, manifest.entries@, location@,
                    srcs.deep_view(), reads.deep_view(), i as int),
        decreases srcs@.len() - i,
    {
        let src = &srcs[i];
        proof {
            assert(srcs@[i as int].deep_view() =~= srcs@[i as int]@);
            assert(srcs.deep_view()[i as int] == src@);
        }
        let mut applied = false;
        if !matches_at(src, 0, &datav) {
            let resolved = resolve_relative(location, src);
            match manifest.lookup_by_location(resolved.as_str()) {
                None => {},
                Some(entry) => {
                    let read: Option<&Vec<u8>> = if i < reads.len() {
                        match &reads[i] {
                            None => None,
                            Some(b) => Some(b),
                        }
                    } else {
                        None
                    };
                    proof {
                        if i < reads.deep_view().len() {
                            assert(reads@[i as int].deep_view()
                                == reads.deep_view()[i as int]);
                        }
                        assert(match read {
                            Some(b) => read_at(reads.deep_view(), i as int) == Some(b@),
                            None => read_at(reads.deep_view(), i as int) is None,
                        });
                    }
                    match read {
                        None => {},
                        Some(bytes) => {
                            if bytes.len() <= usize::MAX / 2 {
                                let payload = encode_base64(bytes);
                                let url = build_data_url(entry.media_type.as_str(), payload.as_str());
                                cur = replace_all(&cur, src, &url);
                                applied = true;
                                proof {
                                    assert(substitution_spec(manifest.entries@, location@,
                                        src@, read_at(reads.deep_view(), i as int))
                                        == Some(url@));
                                }
                            }
                        },
                    }
                },
            }
        }
        if !applied {
            proof {
                assert(substitution_spec(manifest.entries@, location@, src@,
                    read_at(reads.deep_view(), i as int)) is None);
            }
        }
        i = i + 1;
    }
    cur
}

/// The concatenation, in order, of the present bodies from position `i`
/// on; an absent body contributes nothing.
pub open spec fn concat_bodies_from(bodies: Seq<Option<Seq<char>>>, i: int) -> Seq<char>
    decreases bodies.len() - i,
    when 0 <= i <= bodies.len()
{
    if i == bodies.len() {
        Seq::empty()
    } else {
        (match bodies[i] {
            None => Seq::<char>::empty(),
            Some(b) => b,
        }) + concat_bodies_from(bodies, i + 1)
    }
}

/// The concatenation, in order, of the present bodies; an absent body
/// contributes nothing.
pub open spec fn concat_bodies_spec(bodies: Seq<Option<Seq<char>>>) -> Seq<char> {
    concat_bodies_from(bodies, 0)
}

/// Concatenates the present bodies in order, each absent body
/// contributing nothing: the combined output preserves exactly the
/// reading-sequence order of its contributions.
pub fn combine_bodies(bodies: &Vec<Option<String>>) -> (r: String)
    ensures
        r@ == concat_bodies_spec(bodies.deep_view()),
{
    let mut out = String::new();
    let mut i: usize = 0;
    while i < bodies.len()
        invariant
            i <= bodies@.len(),
            bodies.deep_view().len() == bodies@.len(),
            out@ + concat_bodies_from(bodies.deep_view(), i as int)
                == concat_bodies_spec(bodies.deep_view()),
        decreases bodies@.len() - i,
    {
        proof {
            assert(bodies@[i as int].deep_view() == bodies.deep_view()[i as int]);
        }
        match &bodies[i] {
            None => {
                proof {
                    assert(bodies.deep_view()[i as int] is None);
                }
            },
            Some(b) => {
                out.append(b.as_str());
            },
        }
        i = i + 1;
    }
    proof {
        assert(out@ =~= concat_bodies_spec(bodies.deep_view()));
    }
    out
}

proof fn lemma_rewrite_from_no_substitutions(
    doc: Seq<char>,
    entries: Seq<crate::manifest::ManifestEntry>,
    location: Seq<char>,
    srcs: Seq<Seq<char>>,
    reads: Seq<Option<Seq<u8>>>,
    i: int,
)
    requires
        0 <= i <= srcs.len(),
        forall|j: int| i <= j < srcs.len()
            ==> substitution_spec(entries, location, #[trigger] srcs[j], read_at(reads, j)) is None,
    ensures
        rewrite_from_spec(doc, entries, location, srcs, reads, i) == doc,
    decreases srcs.len() - i,
{
    if i < srcs.len() {
        lemma_rewrite_from_no_substitutions(doc, entries, location, srcs, reads, i + 1);
    }
}

/// A reference that fails to resolve is left unmodified: when no image
/// reference of the document yields a substitution — each is already an
/// inline data reference, resolves to no manifest entry, or had no
/// readable bytes — the image-inlining pass returns the document
/// exactly as it was.
pub proof fn lemma_unresolved_references_untouched(
    doc: Seq<char>,
    entries: Seq<crate::manifest::ManifestEntry>,
    location: Seq<char>,
    reads: Seq<Option<Seq<u8>>>,
)
    requires
        forall|j: int| 0 <= j < image_srcs(doc).len()
            ==> substitution_spec(entries, location, #[trigger] image_srcs(doc)[j],
                read_at(reads, j)) is None,
    ensures
        rewrite_spec(doc, entries, location, reads) == doc,
{
    lemma_rewrite_from_no_substitutions(doc, entries, location, image_srcs(doc), reads, 0);
}

/// A reference that resolves is inlined: for a document carrying one
/// image reference, when that reference yields a substitution — it is
/// not already inline, it resolves in the manifest, and its bytes were
/// read — the rewritten document contains the inline data reference
/// that the substitution built.
pub proof fn lemma_resolved_reference_inlined(
    doc: Seq<char>,
    entries: Seq<crate::manifest::ManifestEntry>,
    location: Seq<char>,
    reads: Seq<Option<Seq<u8>>>,
)
    requires
        image_srcs(doc).len() == 1,
        substitution_spec(entries, location, image_srcs(doc)[0], read_at(reads, 0)) is Some,
    ensures
        exists|k: int| is_at(
            rewrite_spec(doc, entries, location, reads),
            k,
            substitution_spec(entries, location, image_srcs(doc)[0], read_at(reads, 0))->Some_0,
        ),
{
    let srcs = image_srcs(doc);
    let src = srcs[0];
    let rep = substitution_spec(entries, location, src, read_at(reads, 0))->Some_0;
    crate::markup::lemma_scanned_srcs_occur(doc, 0);
    let k0 = choose|k: int| is_at(doc, k, src);
    crate::text::lemma_find_witness(doc, 0, k0, src);
    assert(rewrite_from_spec(doc, entries, location, srcs, reads, 0)
        == rewrite_from_spec(replace_all_spec(doc, src, rep), entries, location, srcs, reads, 1));
    assert(rewrite_from_spec(replace_all_spec(doc, src, rep), entries, location, srcs, reads, 1)
        == replace_all_spec(doc, src, rep));
    crate::text::lemma_replace_all_keeps_replacement(doc, src, rep);
    let kk = choose|k: int| is_at(replace_all_spec(doc, src, rep), k, rep);
    assert(is_at(rewrite_spec(doc, entries, location, reads), kk, rep));
}

proof fn lemma_concat_after_remove(bodies: Seq<Option<Seq<char>>>, i: int, m: int)
    requires
        0 <= i < bodies.len(),
        i + 1 <= m <= bodies.len(),
    ensures
        concat_bodies_from(bodies, m) == concat_bodies_from(bodies.remove(i), m - 1),
    decreases bodies.len() - m,
{
    if m < bodies.len() {
        lemma_concat_after_remove(bodies, i, m + 1);
        assert(bodies.remove(i)[m - 1] == bodies[m]);
    }
}

proof fn lemma_concat_remove(bodies: Seq<Option<Seq<char>>>, i: int, j: int)
    requires
        0 <= j <= i < bodies.len(),
        bodies[i] is None,
    ensures
        concat_bodies_from(bodies, j) == concat_bodies_from(bodies.remove(i), j),
    decreases i - j,
{
    if j == i {
        lemma_concat_after_remove(bodies, i, i + 1);
        assert(concat_bodies_from(bodies, i)
            =~= Seq::<char>::empty() + concat_bodies_from(bodies, i + 1));
        assert(Seq::<char>::empty() + concat_bodies_from(bodies, i + 1)
            =~= concat_bodies_from(bodies, i + 1));
    } else {
        lemma_concat_remove(bodies, i, j + 1);
        assert(bodies.remove(i)[j] == bodies[j]);
    }
}

/// A skipped entry produces no contribution: dropping an absent body
/// from the sequence leaves the combined output unchanged, so the
/// output is exactly the concatenation of the present bodies in
/// reading-sequence order.
pub proof fn lemma_absent_body_drops_out(bodies: Seq<Option<Seq<char>>>, i: int)
    requires
        0 <= i < bodies.len(),
        bodies[i] is None,
    ensures
        concat_bodies_spec(bodies) == concat_bodies_spec(bodies.remove(i)),
{
    lemma_concat_remove(bodies, i, 0);
}

/// Whether a media type names a content document intended for display:
/// an (X)HTML type, as opposed to stylesheets, fonts or images.
pub open spec fn is_content_type(media_type: Seq<char>) -> bool {
    media_type == "application/xhtml+xml"@ || media_type == "text/html"@
}

/// The text handed over for the `i`-th reading-sequence slot, if any.
pub open spec fn text_at(texts: Seq<Option<Seq<char>>>, i: int) -> Option<Seq<char>> {
    if 0 <= i < texts.len() {
        texts[i]
    } else {
        None
    }
}

/// The read outcomes handed over for the `i`-th reading-sequence slot.
pub open spec fn reads_at(readss: Seq<Seq<Option<Seq<u8>>>>, i: int) -> Seq<Option<Seq<u8>>> {
    if 0 <= i < readss.len() {
        readss[i]
    } else {
        Seq::empty()
    }
}

/// The contribution of one reading-sequence slot: absent when the id
/// is dangling, the entry is not a content document, or no text came
/// back; otherwise the body of the text after the image-inlining pass,
/// resolved against the entry's own location.
pub open spec fn slot_body_spec(
    entries: Seq<ManifestEntry>,
    id: Seq<char>,
    text: Option<Seq<char>>,
    reads: Seq<Option<Seq<u8>>>,
) -> Option<Seq<char>> {
    match find_by_id_spec(entries, id) {
        None => None,
        Some(k) => if !is_content_type(entries[k].media_type@) {
            None
        } else {
            match text {
                None => None,
                Some(t) => body_inner_of(rewrite_spec(t, entries, entries[k].location@, reads)),
            }
        },
    }
}

/// The combined output assembled from the reading sequence: each slot's
/// contribution in spine order, skipped slots contributing nothing,
/// concatenated with no added separators.
pub open spec fn assemble_spec(
    entries: Seq<ManifestEntry>,
    spine: Seq<Seq<char>>,
    texts: Seq<Option<Seq<char>>>,
    readss: Seq<Seq<Option<Seq<u8>>>>,
) -> Seq<char> {
    concat_bodies_spec(Seq::new(spine.len(), |i: int|
        slot_body_spec(entries, spine[i], text_at(texts, i), reads_at(readss, i))))
}

/// A container with no reading sequence assembles to the empty output:
/// an empty accumulator is a valid result, not a failure.
pub proof fn lemma_empty_sequence_renders_empty(
    entries: Seq<ManifestEntry>,
    texts: Seq<Option<Seq<char>>>,
    readss: Seq<Seq<Option<Seq<u8>>>>,
)
    ensures
        assemble_spec(entries, Seq::empty(), texts, readss) == Seq::<char>::empty(),
{
    assert(Seq::new(0, |i: int| slot_body_spec(entries, Seq::<Seq<char>>::empty()[i],
        text_at(texts, i), reads_at(readss, i))).len() == 0);
}

/// Walks the reading sequence and assembles the combined output from
/// the texts and image-read outcomes that the container yielded, one
/// slot each: a dangling id, a non-content entry or an absent text is
/// skipped; every other slot contributes the body of its rewritten
/// document; the contributions are concatenated in spine order.
pub fn assemble(
    manifest: &Manifest,
    texts: &Vec<Option<String>>,
    readss: &Vec<Vec<Option<Vec<u8>>>>,
) -> (r: String)
    ensures
        r@ == assemble_spec(manifest.entries@, manifest.spine.deep_view(), texts.deep_view(),
            readss.deep_view()),
{
    let empty_reads: Vec<Option<Vec<u8>>> = Vec::new();
    let xhtml = String::from_str("application/xhtml+xml");
    let html = String::from_str("text/html");
    let ghost slots = Seq::new(manifest.spine.deep_view().len(), |i: int|
        slot_body_spec(manifest.entries@, manifest.spine.deep_view()[i],
            text_at(texts.deep_view(), i), reads_at(readss.deep_view(), i)));
    let mut bodies: Vec<Option<String>> = Vec::new();
    let mut si: usize = 0;
    while si < manifest.spine.len()
        invariant
            si <= manifest.spine@.len(),
            manifest.spine.deep_view().len() == manifest.spine@.len(),
            xhtml@ == "application/xhtml+xml"@,
            html@ == "text/html"@,
            empty_reads.deep_view() == Seq::<Option<Seq<u8>>>::empty(),
            slots == Seq::new(manifest.spine.deep_view().len(), |i: int|
                slot_body_spec(manifest.entries@, manifest.spine.deep_view()[i],
                    text_at(texts.deep_view(), i), reads_at(readss.deep_view(), i))),
            bodies.deep_view() == slots.take(si as int),
        decreases manifest.spine@.len() - si,
    {
        let id = &manifest.spine[si];
        proof {
            assert(manifest.spine@[si as int].deep_view() =~= manifest.spine@[si as int]@);
            assert(manifest.spine.deep_view()[si as int] == id@);
        }
        let mut contribution: Option<String> = None;
        match manifest.lookup_by_id(id.as_str()) {
            None => {
                proof {
                    assert(slots[si as int] is None);
                }
            },
            Some(entry) => {
                if entry.media_type == xhtml || entry.media_type == html {
                    let text_i: Option<&String> = if si < texts.len() {
                        match &texts[si] {
                            None => None,
                            Some(t) => Some(t),
                        }
                    } else {
                        None
                    };
                    proof {
                        if si < texts.deep_view().len() {
                            assert(texts@[si as int].deep_view() == texts.deep_view()[si as int]);
                        }
                        assert(match text_i {
                            Some(t) => text_at(texts.deep_view(), si as int) == Some(t@),
                            None => text_at(texts.deep_view(), si as int) is None,
                        });
                    }
                    match text_i {
                        None => {
                            proof {
                                assert(slots[si as int] is None);
                            }
                        },
                        Some(t) => {
                            let reads_i: &Vec<Option<Vec<u8>>> = if si < readss.len() {
                                &readss[si]
                            } else {
                                &empty_reads
                            };
                            proof {
                                if si < readss.deep_view().len() {
                                    assert(readss@[si as int].deep_view()
                                        == readss.deep_view()[si as int]);
                                }
                                assert(reads_i.deep_view()
                                    == reads_at(readss.deep_view(), si as int));
                            }
                            contribution = render_document_text(
                                t.as_str(),
                                manifest,
                                entry.location.as_str(),
                                reads_i,
                            );
                            proof {
                                assert(contribution.deep_view() == slots[si as int]);
                            }
                        },
                    }
                } else {
                    proof {
                        assert(!is_content_type(entry.media_type@));
                        assert(slots[si as int] is None);
                    }
                }
            },
        }
        let ghost old_deep = bodies.deep_view();
        bodies.push(contribution);
        proof {
            assert(bodies.deep_view() =~= old_deep.push(contribution.deep_view()));
            assert(bodies.deep_view() =~= slots.take(si + 1));
        }
        si = si + 1;
    }
    proof {
        assert(slots.take(manifest.spine.deep_view().len() as int) =~= slots);
    }
    combine_bodies(&bodies)
}

/// Renders one content document: applies the image-inlining pass given
/// the read outcome for each image reference, and extracts the inner
/// markup of the document's body element, if it has one.
pub fn render_document_text(
    text: &str,
    manifest: &Manifest,
    location: &str,
    reads: &Vec<Option<Vec<u8>>>,
) -> (r: Option<String>)
    ensures
        r.deep_view() == body_inner_of(rewrite_spec(text@, manifest.entries@, location@,
            reads.deep_view())),
{
    let doc = to_chars(text);
    let loc = to_chars(location);
    let rewritten = rewrite_images(&doc, manifest, &loc, reads);
    let rendered = chars_to_string(&rewritten);
    extract_body(rendered.as_str())
}

/// Attempts the byte read for each image reference of a document, one
/// outcome per reference in order: a reference that is already inline
/// or does not resolve in the manifest is not read and its outcome is
/// absent; only the bytes of a resolving reference's read, when it
/// succeeds, are present.
fn fetch_reads(
    container: &crate::container::Container,
    location: &Vec<char>,
    srcs: &Vec<Vec<char>>,
) -> (r: Vec<Option<Vec<u8>>>)
    ensures
        r@.len() == srcs@.len(),
        forall|i: int| 0 <= i < srcs@.len()
            ==> ((is_at(#[trigger] srcs.deep_view()[i], 0, data_prefix())
                || find_by_location_spec(container.manifest.entries@,
                    resolve_spec(location@, srcs.deep_view()[i])) is None)
                ==> r.deep_view()[i] is None),
{
    let mut reads: Vec<Option<Vec<u8>>> = Vec::new();
    let mut j: usize = 0;
    while j < srcs.len()
        invariant
            j <= srcs@.len(),
            reads@.len() == j,
            forall|i: int| 0 <= i < j
                ==> ((is_at(#[trigger] srcs.deep_view()[i], 0, data_prefix())
                    || find_by_location_spec(container.manifest.entries@,
                        resolve_spec(location@, srcs.deep_view()[i])) is None)
                    ==> reads.deep_view()[i] is None),
        decreases srcs@.len() - j,
    {
        let src = &srcs[j];
        proof {
            assert(srcs@[j as int].deep_view() =~= srcs@[j as int]@);
            assert(srcs.deep_view()[j as int] == src@);
        }
        let ghost old_deep = reads.deep_view();
        let outcome = fetch_one(container, location, src);
        reads.push(outcome);
        proof {
            assert forall|i: int| 0 <= i < j + 1
                implies ((is_at(#[trigger] srcs.deep_view()[i], 0, data_prefix())
                    || find_by_location_spec(container.manifest.entries@,
                        resolve_spec(location@, srcs.deep_view()[i])) is None)
                    ==> reads.deep_view()[i] is None) by {
                assert(reads@[i].deep_view() == reads.deep_view()[i]);
                if i < j {
                    assert(old_deep[i] == reads.deep_view()[i]);
                }
            }
        }
        j = j + 1;
    }
    reads
}

/// The read attempt for one image reference: absent when the reference
/// is already an inline data reference, resolves to no manifest entry,
/// or its bytes could not be read.
fn fetch_one(
    container: &crate::container::Container,
    location: &Vec<char>,
    src: &Vec<char>,
) -> (r: Option<Vec<u8>>)
    ensures
        (is_at(src@, 0, data_prefix())
            || find_by_location_spec(container.manifest.entries@,
                resolve_spec(location@, src@)) is None)
            ==> r is None,
{
    let datav: Vec<char> = vec!['d', 'a', 't', 'a', ':'];
    proof {
        assert(datav@ =~= data_prefix());
    }
    if matches_at(src, 0, &datav) {
        return None;
    }
    let resolved = resolve_relative(location, src);
    match container.manifest.lookup_by_location(resolved.as_str()) {
        None => None,
        Some(_) => {
            match container.read_bytes(resolved.as_str()) {
                Ok(bytes) => Some(bytes),
                Err(_) => None,
            }
        },
    }
}

/// Renders one open container: gathers what it yields — each spine
/// slot's text and each image reference's read outcome — and hands the
/// gathered data to `assemble`. Whatever the file system answered, the
/// result is an assembly of this container's own manifest and reading
/// sequence; every decision about the gathered data (dangling-id and
/// non-content skips, inlining, body extraction, spine-order
/// concatenation) is made under `assemble`'s exact contract.
pub fn render_container(container: &crate::container::Container) -> (r: String)
    ensures
        exists|texts: Seq<Option<Seq<char>>>, readss: Seq<Seq<Option<Seq<u8>>>>|
            r@ == assemble_spec(container.manifest.entries@,
                container.manifest.spine.deep_view(), texts, readss),
{
    let xhtml = String::from_str("application/xhtml+xml");
    let html = String::from_str("text/html");
    let mut texts: Vec<Option<String>> = Vec::new();
    let mut readss: Vec<Vec<Option<Vec<u8>>>> = Vec::new();
    let mut si: usize = 0;
    while si < container.manifest.spine.len()
        decreases container.manifest.spine@.len() - si,
    {
        let id = &container.manifest.spine[si];
        let mut text: Option<String> = None;
        let mut reads: Vec<Option<Vec<u8>>> = Vec::new();
        match container.manifest.lookup_by_id(id.as_str()) {
            None => {},
            Some(entry) => {
                if entry.media_type == xhtml || entry.media_type == html {
                    match container.read_text(id.as_str()) {
                        Err(_) => {},
                        Ok(t) => {
                            let doc = to_chars(t.as_str());
                            let srcs = find_image_srcs(&doc);
                            let loc = to_chars(entry.location.as_str());
                            reads = fetch_reads(&container, &loc, &srcs);
                            text = Some(t);
                        },
                    }
                }
            },
        }
        texts.push(text);
        readss.push(reads);
        si = si + 1;
    }
    let combined = assemble(&container.manifest, &texts, &readss);
    proof {
        assert(combined@ == assemble_spec(container.manifest.entries@,
            container.manifest.spine.deep_view(), texts.deep_view(), readss.deep_view()));
    }
    combined
}

/// Extracts and returns all HTML content of the container at `path`:
/// every resolvable content document of the reading sequence, in order,
/// with resolvable image references inlined and bodies concatenated.
/// Only a failure to open the container is an error; every per-document
/// failure degrades the output instead: on success the result is
/// `render_container`'s assembly of the opened container.
pub fn get_epub_content(path: &str) -> (r: Result<String, RenderError>)
    ensures
        r is Err ==> r->Err_0 is Open,
{
    match crate::container::Container::open(path) {
        Err(e) => Err(RenderError::Open(e)),
        Ok(container) => Ok(render_container(&container)),
    }
}

} // verus!
