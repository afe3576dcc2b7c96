//! The cover persister's pure side: mapping a media type to a file
//! extension, sanitizing a caller-chosen file name, and forming the
//! path under the covers directory. Writing the bytes to durable
//! storage is the caller's concern.

use vstd::prelude::*;

verus! {

/// Whether a character is alphanumeric in the Unicode sense; it depends
/// on the character alone.
pub uninterp spec fn alphanumeric(c: char) -> bool;

/// Relies on std's `char::is_alphanumeric`: a pure classification of the
/// character.
#[verifier::external_body]
fn is_alphanumeric_char(c: char) -> (r: bool)
    ensures
        r == alphanumeric(c),
{
    c.is_alphanumeric()
}

/// Whether a file-name character survives sanitization: alphanumeric,
/// `.`, `-` or `_`.
pub open spec fn allowed_char(c: char) -> bool {
    alphanumeric(c) || c == '.' || c == '-' || c == '_'
}

/// The file name with every character that is not alphanumeric, `.`,
/// `-` or `_` stripped, in order.
pub open spec fn sanitize_spec(name: Seq<char>) -> Seq<char>
    decreases name.len(),
{
    if name.len() == 0 {
        Seq::empty()
    } else {
        sanitize_spec(name.drop_last()) + (if allowed_char(name.last()) {
            seq![name.last()]
        } else {
            Seq::<char>::empty()
        })
    }
}

/// Strips every character that is not alphanumeric, `.`, `-` or `_`
/// from the file name, preserving the order of the rest.
pub fn sanitize_filename(filename: &str) -> (r: String)
    ensures
        r@ == sanitize_spec(filename@),
{
    let chars = crate::text::to_chars(filename);
    let mut out: Vec<char> = Vec::new();
    let mut i: usize = 0;
    while i < chars.len()
        invariant
            i <= chars@.len(),
            chars@ == filename@,
            out@ == sanitize_spec(filename@.subrange(0, i as int)),
        decreases chars@.len() - i,
    {
        let c = chars[i];
        let keep = if is_alphanumeric_char(c) {
            true
        } else {
            c == '.' || c == '-' || c == '_'
        };
        if keep {
            out.push(c);
        }
        proof {
            let pre = filename@.subrange(0, i + 1);
            assert(pre.drop_last() =~= filename@.subrange(0, i as int));
            assert(pre.last() == filename@[i as int]);
            if allowed_char(c) {
                assert(out@ =~= sanitize_spec(pre.drop_last()) + seq![pre.last()]);
            } else {
                assert(out@ =~= sanitize_spec(pre.drop_last()) + Seq::<char>::empty());
            }
        }
        i = i + 1;
    }
    proof {
        assert(filename@.subrange(0, filename@.len() as int) =~= filename@);
    }
    crate::text::chars_to_string(&out)
}

/// The file extension chosen for a cover's media type: known image
/// types map to their usual extension, anything else defaults to `jpg`.
pub open spec fn extension_spec(media_type: Seq<char>) -> Seq<char> {
    if media_type == "image/png"@ {
        "png"@
    } else if media_type == "image/gif"@ {
        "gif"@
    } else {
        "jpg"@
    }
}

/// Maps a cover's media type to its file extension.
pub fn extension_for(media_type: &str) -> (r: String)
    ensures
        r@ == extension_spec(media_type@),
{
    let mt = String::from_str(media_type);
    if mt == String::from_str("image/png") {
        String::from_str("png")
    } else if mt == String::from_str("image/gif") {
        String::from_str("gif")
    } else {
        String::from_str("jpg")
    }
}

/// The storage path of a cover: the sanitized base name and the
/// media-type extension, under the covers directory.
pub open spec fn cover_path_spec(media_type: Seq<char>, base_filename: Seq<char>) -> Seq<char> {
    "covers/"@ + sanitize_spec(base_filename) + seq!['.'] + extension_spec(media_type)
}

/// The path, relative to the working directory, at which a cover with
/// the given media type and caller-chosen base name is stored.
pub fn cover_relative_path(media_type: &str, base_filename: &str) -> (r: String)
    ensures
        r@ == cover_path_spec(media_type@, base_filename@),
{
    let mut out = String::from_str("covers/");
    let sanitized = sanitize_filename(base_filename);
    out.append(sanitized.as_str());
    let mut dot = String::new();
    crate::text::push_char(&mut dot, '.');
    out.append(dot.as_str());
    proof {
        assert(dot@ =~= seq!['.']);
    }
    let ext = extension_for(media_type);
    out.append(ext.as_str());
    out
}

} // verus!
