//! Media-type classification of file names.
//!
//! A file takes part in the slideshow only if its name looks like an image
//! or — when videos are enabled — a video.  SVG-typed files are always
//! rejected: vector icons are overlay assets, not slideshow content.  The
//! type guess itself comes from an outside media-type table keyed by the
//! name's extension; the decision over that guess is verified here.

use vstd::prelude::*;

verus! {

/// How a file name was classified for the slideshow.
#[derive(Clone, Copy, Debug, PartialEq, Eq, Structural)]
pub enum MediaKind {
    /// An image file, always playable content.
    Image,
    /// A video file, playable content when videos are enabled.
    Video,
    /// Not slideshow content.
    Rejected,
}

/// The media type guessed from a file name, as a pair of top-level type and
/// subtype (for example `image` and `png`), or `None` when the name's
/// extension is unknown.  The guess is a fixed table lookup on the name's
/// extension, so it is a function of the name alone.
pub uninterp spec fn mime_guess_of(name: Seq<char>) -> Option<(Seq<char>, Seq<char>)>;

/// Relies on `mime_guess::from_path` and `MimeGuess::first`: the guess is
/// computed from the name's extension through a fixed table, so equal names
/// give equal guesses; the returned pair carries the guessed type's
/// top-level name and subtype name.
#[verifier::external_body]
fn guess_mime_parts(file_name: &str) -> (r: Option<(String, String)>)
    ensures
        (r is Some) == (mime_guess_of(file_name@) is Some),
        r matches Some(parts) ==> mime_guess_of(file_name@) == Some((parts.0@, parts.1@)),
{
    mime_guess::from_path(file_name)
        .first()
        .map(|m| (m.type_().as_str().to_string(), m.subtype().as_str().to_string()))
}

/// Whether two string slices hold the same characters.
fn str_eq(a: &str, b: &str) -> (r: bool)
    ensures
        r == (a@ == b@),
{
    let na = a.unicode_len();
    let nb = b.unicode_len();
    if na != nb {
        return false;
    }
    let mut i: usize = 0;
    while i < na
        invariant
            i <= na,
            na == a@.len(),
            na == b@.len(),
            forall|k: int| 0 <= k < i ==> a@[k] == b@[k],
        decreases na - i,
    {
        if a.get_char(i) != b.get_char(i) {
            assert(a@[i as int] != b@[i as int]);
            return false;
        }
        i = i + 1;
    }
    assert(a@ =~= b@);
    true
}

/// The classification of a file name: the guessed subtype `svg` is always
/// rejected, a guessed `video` type is kept only when videos are included,
/// a guessed `image` type is kept, and everything else — unknown extensions
/// included — is rejected.
pub open spec fn classify_spec(name: Seq<char>, include_video: bool) -> MediaKind {
    match mime_guess_of(name) {
        None => MediaKind::Rejected,
        Some(parts) => if parts.1 == "svg"@ {
            MediaKind::Rejected
        } else if parts.0 == "video"@ {
            if include_video {
                MediaKind::Video
            } else {
                MediaKind::Rejected
            }
        } else if parts.0 == "image"@ {
            MediaKind::Image
        } else {
            MediaKind::Rejected
        },
    }
}

/// Classifies a file name for the slideshow.
pub fn classify(file_name: &str, include_video: bool) -> (kind: MediaKind)
    ensures
        kind == classify_spec(file_name@, include_video),
{
    match guess_mime_parts(file_name) {
        None => MediaKind::Rejected,
        Some((top, sub)) => {
            if str_eq(sub.as_str(), "svg") {
                MediaKind::Rejected
            } else if str_eq(top.as_str(), "video") {
                if include_video {
                    MediaKind::Video
                } else {
                    MediaKind::Rejected
                }
            } else if str_eq(top.as_str(), "image") {
                MediaKind::Image
            } else {
                MediaKind::Rejected
            }
        },
    }
}

/// Whether a file name is kept as slideshow content.
pub fn is_valid_media(file_name: &str, include_video: bool) -> (r: bool)
    ensures
        r == (classify_spec(file_name@, include_video) != MediaKind::Rejected),
{
    let kind = classify(file_name, include_video);
    match kind {
        MediaKind::Rejected => false,
        _ => true,
    }
}

/// Whether a name marks a hidden entry: it starts with a dot.
pub open spec fn hidden_name(name: Seq<char>) -> bool {
    name.len() > 0 && name[0] == '.'
}

/// Whether a file or directory name is hidden.
pub fn is_hidden(name: &str) -> (r: bool)
    ensures
        r == hidden_name(name@),
{
    if name.unicode_len() == 0 {
        false
    } else {
        name.get_char(0) == '.'
    }
}

} // verus!
